//! The state of a run, kept in one place.
//!
//! A `RunStatus` holds the tasks of a run and what has become of each. The
//! workers of a front end share one, behind a lock: each reports the outcome
//! of its task with `record`, which counts the task and notes its failure in
//! one step, so that whoever reads the status between two calls sees each
//! task either not yet counted or counted with its message. A task is
//! recorded once: `record` refuses a second outcome for it. A front end that
//! shows progress reads `snapshot`; at the end, `summary` adds the outcomes
//! up.

use vstd::prelude::*;
use crate::discover::{ConversionTask, ConversionTaskView};
use crate::error::{RunError, TaskError};
use crate::path::{file_name, file_name_of};
use crate::task::TaskOutcome;

verus! {

/// How far a run has come.
#[derive(Clone, Copy, Debug, PartialEq, Eq, Structural)]
pub enum RunPhase {
    /// No tasks yet.
    Idle,
    /// Tasks are being carried out.
    Running,
    /// All tasks are recorded, or the run has failed as a whole.
    Finished,
}

/// A failed task: its source and the reason.
#[derive(Debug, PartialEq, Eq)]
pub struct Failure {
    pub source: String,
    pub reason: TaskError,
}

/// A `Failure` as a mathematical value.
pub struct FailureView {
    pub source: Seq<char>,
    pub reason: TaskError,
}

impl DeepView for Failure {
    type V = FailureView;

    open spec fn deep_view(&self) -> FailureView {
        FailureView { source: self.source@, reason: self.reason }
    }
}

/// The outcomes of a run, added up.
#[derive(Debug, PartialEq, Eq)]
pub struct RunSummary {
    /// How many tasks succeeded.
    pub succeeded: usize,
    /// How many tasks were skipped.
    pub skipped: usize,
    /// The tasks that failed, in the order of the tasks.
    pub failed: Vec<Failure>,
}

/// A `RunSummary` as a mathematical value.
pub struct RunSummaryView {
    pub succeeded: nat,
    pub skipped: nat,
    pub failed: Seq<FailureView>,
}

impl DeepView for RunSummary {
    type V = RunSummaryView;

    open spec fn deep_view(&self) -> RunSummaryView {
        RunSummaryView {
            succeeded: self.succeeded as nat,
            skipped: self.skipped as nat,
            failed: self.failed.deep_view(),
        }
    }
}

/// What a reader of the status sees at one moment.
#[derive(Debug, PartialEq, Eq)]
pub struct StatusSnapshot {
    /// The number of tasks.
    pub total: usize,
    /// The number of tasks recorded.
    pub completed: usize,
    /// The task last taken up; empty when the run is finished.
    pub current: String,
    /// The failures so far, one message each, in the order recorded.
    pub errors: Vec<String>,
    /// Whether the run is finished.
    pub done: bool,
}

/// A `StatusSnapshot` as a mathematical value.
pub struct StatusSnapshotView {
    pub total: nat,
    pub completed: nat,
    pub current: Seq<char>,
    pub errors: Seq<Seq<char>>,
    pub done: bool,
}

impl DeepView for StatusSnapshot {
    type V = StatusSnapshotView;

    open spec fn deep_view(&self) -> StatusSnapshotView {
        StatusSnapshotView {
            total: self.total as nat,
            completed: self.completed as nat,
            current: self.current@,
            errors: self.errors.deep_view(),
            done: self.done,
        }
    }
}

/// How many of the tasks are recorded.
pub open spec fn recorded_count(outcomes: Seq<Option<TaskOutcome>>) -> nat
    decreases outcomes.len(),
{
    if outcomes.len() == 0 {
        0
    } else {
        recorded_count(outcomes.drop_last()) + if outcomes.last() is Some {
            1nat
        } else {
            0nat
        }
    }
}

/// How many of the tasks succeeded.
pub open spec fn succeeded_count(outcomes: Seq<Option<TaskOutcome>>) -> nat
    decreases outcomes.len(),
{
    if outcomes.len() == 0 {
        0
    } else {
        succeeded_count(outcomes.drop_last()) + if outcomes.last() == Some(TaskOutcome::Success) {
            1nat
        } else {
            0nat
        }
    }
}

/// How many of the tasks were skipped.
pub open spec fn skipped_count(outcomes: Seq<Option<TaskOutcome>>) -> nat
    decreases outcomes.len(),
{
    if outcomes.len() == 0 {
        0
    } else {
        skipped_count(outcomes.drop_last()) + if outcomes.last() == Some(TaskOutcome::Skipped) {
            1nat
        } else {
            0nat
        }
    }
}

/// The tasks that failed, each with its source and reason, in the order of
/// the tasks.
pub open spec fn failures(
    tasks: Seq<ConversionTaskView>,
    outcomes: Seq<Option<TaskOutcome>>,
) -> Seq<FailureView>
    recommends
        tasks.len() == outcomes.len(),
    decreases outcomes.len(),
{
    if outcomes.len() == 0 {
        Seq::<FailureView>::empty()
    } else {
        let before = failures(tasks.drop_last(), outcomes.drop_last());
        match outcomes.last() {
            Some(TaskOutcome::Failed(reason)) => before.push(
                FailureView { source: tasks.last().source, reason },
            ),
            _ => before,
        }
    }
}

/// The outcomes added up.
pub open spec fn summary_of(
    tasks: Seq<ConversionTaskView>,
    outcomes: Seq<Option<TaskOutcome>>,
) -> RunSummaryView {
    RunSummaryView {
        succeeded: succeeded_count(outcomes),
        skipped: skipped_count(outcomes),
        failed: failures(tasks, outcomes),
    }
}

/// The message for a failed task: the source, a colon, and the reason.
pub open spec fn failure_message(source: Seq<char>, reason: TaskError) -> Seq<char> {
    source + ": "@ + reason.reason_text()
}

/// The message for a run that failed as a whole.
pub open spec fn abort_message(error: RunError) -> Seq<char> {
    "Conversion failed: "@ + error.message_text()
}

/// The label of a task that is under way: the file names of its source and
/// of its destination.
pub open spec fn task_label(task: ConversionTaskView) -> Seq<char> {
    file_name(task.source) + " → "@ + file_name(task.destination)
}

/// A `RunStatus` as a mathematical value.
pub struct RunStatusView {
    /// How far the run has come.
    pub phase: RunPhase,
    /// The tasks of the run.
    pub tasks: Seq<ConversionTaskView>,
    /// The outcome of each task, where it is recorded.
    pub outcomes: Seq<Option<TaskOutcome>>,
    /// The label of the task last taken up.
    pub current: Seq<char>,
    /// One message for each failure, in the order recorded.
    pub errors: Seq<Seq<char>>,
    /// Why the run failed as a whole, if it did.
    pub failure: Option<RunError>,
}

impl RunStatusView {
    /// The number of tasks.
    pub open spec fn total(self) -> nat {
        self.tasks.len()
    }

    /// The number of tasks recorded.
    pub open spec fn completed(self) -> nat {
        recorded_count(self.outcomes)
    }

    /// Whether the run is finished.
    pub open spec fn done(self) -> bool {
        self.phase == RunPhase::Finished
    }

    /// What holds of every status: each task has its place for an outcome;
    /// while the run is under way some task is not recorded; and a run is
    /// finished only when every task is recorded or the run has failed as a
    /// whole.
    pub open spec fn well_formed(self) -> bool {
        &&& self.outcomes.len() == self.tasks.len()
        &&& self.phase == RunPhase::Idle ==> self.tasks.len() == 0 && self.failure is None
        &&& self.phase == RunPhase::Running ==> self.completed() < self.total()
            && self.failure is None
        &&& self.phase == RunPhase::Finished ==> self.completed() == self.total()
            || self.failure is Some
    }

    /// Whether an outcome for the task at `index` is taken: the run is under
    /// way, there is such a task, and it is not recorded yet.
    pub open spec fn accepts(self, index: int) -> bool {
        &&& self.phase == RunPhase::Running
        &&& 0 <= index < self.outcomes.len()
        &&& self.outcomes[index] is None
    }

    /// The status after the task at `index` was taken up.
    pub open spec fn started(self, index: int) -> RunStatusView {
        RunStatusView { current: task_label(self.tasks[index]), ..self }
    }

    /// The status after `outcome` was recorded for the task at `index`: the
    /// task is counted, a failure has its message, and with the last task the
    /// run is finished and no task is under way.
    pub open spec fn recorded(self, index: int, outcome: TaskOutcome) -> RunStatusView {
        let last = self.completed() + 1 == self.total();
        RunStatusView {
            phase: if last {
                RunPhase::Finished
            } else {
                self.phase
            },
            tasks: self.tasks,
            outcomes: self.outcomes.update(index, Some(outcome)),
            current: if last {
                Seq::<char>::empty()
            } else {
                self.current
            },
            errors: match outcome {
                TaskOutcome::Failed(reason) => self.errors.push(
                    failure_message(self.tasks[index].source, reason),
                ),
                _ => self.errors,
            },
            failure: self.failure,
        }
    }

    /// The status after the run failed as a whole.
    pub open spec fn aborted(self, error: RunError) -> RunStatusView {
        RunStatusView {
            phase: RunPhase::Finished,
            current: Seq::<char>::empty(),
            errors: self.errors.push(abort_message(error)),
            failure: Some(error),
            ..self
        }
    }

    /// What a reader sees.
    pub open spec fn snapshot(self) -> StatusSnapshotView {
        StatusSnapshotView {
            total: self.total(),
            completed: self.completed(),
            current: self.current,
            errors: self.errors,
            done: self.done(),
        }
    }
}

/// The status before a run.
pub open spec fn idle_status() -> RunStatusView {
    RunStatusView {
        phase: RunPhase::Idle,
        tasks: Seq::<ConversionTaskView>::empty(),
        outcomes: Seq::<Option<TaskOutcome>>::empty(),
        current: Seq::<char>::empty(),
        errors: Seq::<Seq<char>>::empty(),
        failure: None,
    }
}

/// The status at the start of a run with these tasks. A run without tasks is
/// finished at once.
pub open spec fn begun_status(tasks: Seq<ConversionTaskView>) -> RunStatusView {
    RunStatusView {
        phase: if tasks.len() == 0 {
            RunPhase::Finished
        } else {
            RunPhase::Running
        },
        tasks,
        outcomes: Seq::new(tasks.len(), |i: int| None::<TaskOutcome>),
        current: Seq::<char>::empty(),
        errors: Seq::<Seq<char>>::empty(),
        failure: None,
    }
}

/// Every recorded task succeeded, was skipped or failed: the three counts of
/// a summary add up to the number of tasks recorded, which is at most the
/// number of tasks; and there is one failure listed for each task that failed.
pub proof fn law_counts_add_up(tasks: Seq<ConversionTaskView>, outcomes: Seq<Option<TaskOutcome>>)
    requires
        tasks.len() == outcomes.len(),
    ensures
        succeeded_count(outcomes) + skipped_count(outcomes) + failures(tasks, outcomes).len()
            == recorded_count(outcomes),
        recorded_count(outcomes) <= outcomes.len(),
    decreases outcomes.len(),
{
    if outcomes.len() > 0 {
        law_counts_add_up(tasks.drop_last(), outcomes.drop_last());
    }
}

/// All tasks are recorded exactly when as many are recorded as there are.
pub proof fn lemma_all_recorded(outcomes: Seq<Option<TaskOutcome>>)
    ensures
        recorded_count(outcomes) <= outcomes.len(),
        recorded_count(outcomes) == outcomes.len() <==> (forall|i: int|
            0 <= i < outcomes.len() ==> outcomes[i] is Some),
    decreases outcomes.len(),
{
    if outcomes.len() > 0 {
        let front = outcomes.drop_last();
        lemma_all_recorded(front);
        if recorded_count(outcomes) == outcomes.len() {
            assert forall|i: int| 0 <= i < outcomes.len() implies outcomes[i] is Some by {
                if i < front.len() {
                    assert(front[i] == outcomes[i]);
                }
            }
        } else if forall|i: int| 0 <= i < outcomes.len() ==> outcomes[i] is Some {
            assert forall|i: int| 0 <= i < front.len() implies front[i] is Some by {
                assert(front[i] == outcomes[i]);
            }
        }
    }
}

/// At the start of a run nothing is recorded.
pub proof fn lemma_nothing_recorded(n: nat)
    ensures
        recorded_count(Seq::new(n, |i: int| None::<TaskOutcome>)) == 0,
        succeeded_count(Seq::new(n, |i: int| None::<TaskOutcome>)) == 0,
        skipped_count(Seq::new(n, |i: int| None::<TaskOutcome>)) == 0,
    decreases n,
{
    if n > 0 {
        let all = Seq::new(n, |i: int| None::<TaskOutcome>);
        assert(all.drop_last() == Seq::new((n - 1) as nat, |i: int| None::<TaskOutcome>));
        lemma_nothing_recorded((n - 1) as nat);
    }
}

/// Where every task was skipped, the summary says so: none succeeded, none
/// failed, and as many were skipped as there are tasks.
pub proof fn law_all_skipped(tasks: Seq<ConversionTaskView>, outcomes: Seq<Option<TaskOutcome>>)
    requires
        tasks.len() == outcomes.len(),
        forall|i: int| 0 <= i < outcomes.len() ==> outcomes[i] == Some(TaskOutcome::Skipped),
    ensures
        summary_of(tasks, outcomes) == (RunSummaryView {
            succeeded: 0,
            skipped: outcomes.len(),
            failed: Seq::<FailureView>::empty(),
        }),
    decreases outcomes.len(),
{
    if outcomes.len() > 0 {
        let front = outcomes.drop_last();
        assert forall|i: int| 0 <= i < front.len() implies front[i] == Some(
            TaskOutcome::Skipped,
        ) by {
            assert(front[i] == outcomes[i]);
        }
        law_all_skipped(tasks.drop_last(), front);
    }
}

/// Where no task failed, the summary lists no failure.
pub proof fn lemma_no_failures(tasks: Seq<ConversionTaskView>, outcomes: Seq<Option<TaskOutcome>>)
    requires
        tasks.len() == outcomes.len(),
        forall|i: int| 0 <= i < outcomes.len() ==> !(#[trigger] outcomes[i] is Some && outcomes[i]->0 is Failed),
    ensures
        failures(tasks, outcomes) == Seq::<FailureView>::empty(),
    decreases outcomes.len(),
{
    if outcomes.len() > 0 {
        let front = outcomes.drop_last();
        assert forall|i: int| 0 <= i < front.len() implies !(#[trigger] front[i] is Some
            && front[i]->0 is Failed) by {
            assert(front[i] == outcomes[i]);
        }
        lemma_no_failures(tasks.drop_last(), front);
    }
}

/// Recording a task that was not recorded counts it once, under its outcome,
/// and changes no other count.
pub proof fn lemma_record_counts(outcomes: Seq<Option<TaskOutcome>>, index: int, outcome: TaskOutcome)
    requires
        0 <= index < outcomes.len(),
        outcomes[index] is None,
    ensures
        ({
            let after = outcomes.update(index, Some(outcome));
            &&& recorded_count(after) == recorded_count(outcomes) + 1
            &&& succeeded_count(after) == succeeded_count(outcomes) + if outcome
                == TaskOutcome::Success {
                1nat
            } else {
                0nat
            }
            &&& skipped_count(after) == skipped_count(outcomes) + if outcome
                == TaskOutcome::Skipped {
                1nat
            } else {
                0nat
            }
        }),
    decreases outcomes.len(),
{
    let after = outcomes.update(index, Some(outcome));
    if index < outcomes.len() - 1 {
        assert(after.drop_last() == outcomes.drop_last().update(index, Some(outcome)));
        lemma_record_counts(outcomes.drop_last(), index, outcome);
    } else {
        assert(after.drop_last() == outcomes.drop_last());
    }
}

/// Recording keeps a status well formed, counts one task more, and never
/// more than there are: the count of recorded tasks only grows, by one with
/// each outcome taken, and stays within the number of tasks.
pub proof fn law_recording_counts_once(status: RunStatusView, index: int, outcome: TaskOutcome)
    requires
        status.well_formed(),
        status.accepts(index),
    ensures
        status.recorded(index, outcome).well_formed(),
        status.recorded(index, outcome).total() == status.total(),
        status.recorded(index, outcome).completed() == status.completed() + 1,
        status.recorded(index, outcome).completed() <= status.total(),
        !status.recorded(index, outcome).accepts(index),
        status.recorded(index, outcome).done() <==> status.recorded(index, outcome).completed()
            == status.total(),
{
    lemma_record_counts(status.outcomes, index, outcome);
    lemma_all_recorded(status.outcomes.update(index, Some(outcome)));
}

/// The outcomes of two different tasks can be recorded in either order: the
/// same outcomes stand recorded, so the summary is the same. Only the order
/// of the messages differs.
pub proof fn law_order_of_recording(
    status: RunStatusView,
    i: int,
    a: TaskOutcome,
    j: int,
    b: TaskOutcome,
)
    requires
        status.well_formed(),
        status.accepts(i),
        status.accepts(j),
        i != j,
    ensures
        status.recorded(i, a).accepts(j),
        status.recorded(j, b).accepts(i),
        status.recorded(i, a).recorded(j, b).outcomes == status.recorded(j, b).recorded(
            i,
            a,
        ).outcomes,
        status.recorded(i, a).recorded(j, b).phase == status.recorded(j, b).recorded(i, a).phase,
        summary_of(status.tasks, status.recorded(i, a).recorded(j, b).outcomes) == summary_of(
            status.tasks,
            status.recorded(j, b).recorded(i, a).outcomes,
        ),
{
    lemma_record_counts(status.outcomes, i, a);
    lemma_record_counts(status.outcomes, j, b);
    lemma_all_recorded(status.outcomes.update(i, Some(a)));
    lemma_all_recorded(status.outcomes.update(j, Some(b)));
    assert(status.outcomes.update(i, Some(a))[j] is None);
    assert(status.outcomes.update(j, Some(b))[i] is None);
    assert(status.outcomes.update(i, Some(a)).update(j, Some(b)) == status.outcomes.update(
        j,
        Some(b),
    ).update(i, Some(a)));
}

/// What a worker reports: the outcome of the task at `index`.
pub struct Report {
    pub index: int,
    pub outcome: TaskOutcome,
}

/// The status after the reports were recorded one after the other. A report
/// that is not taken changes nothing.
pub open spec fn record_all(status: RunStatusView, reports: Seq<Report>) -> RunStatusView
    decreases reports.len(),
{
    if reports.len() == 0 {
        status
    } else {
        let before = record_all(status, reports.drop_last());
        let report = reports.last();
        if before.accepts(report.index) {
            before.recorded(report.index, report.outcome)
        } else {
            before
        }
    }
}

/// Whether the reports are for tasks that wait to be recorded in `status`,
/// no two for the same task.
pub open spec fn one_report_each(status: RunStatusView, reports: Seq<Report>) -> bool {
    &&& forall|k: int| 0 <= k < reports.len() ==> status.accepts(#[trigger] reports[k].index)
    &&& forall|k: int, l: int|
        0 <= k < reports.len() && 0 <= l < reports.len() && k != l ==> #[trigger] reports[k].index
            != #[trigger] reports[l].index
}

/// What stands recorded after reports for different waiting tasks: each
/// report's outcome for its task, and for the other tasks what stood there
/// before. Every report is counted, and the run is finished exactly when all
/// tasks are recorded.
pub proof fn lemma_record_all(status: RunStatusView, reports: Seq<Report>)
    requires
        status.well_formed(),
        one_report_each(status, reports),
    ensures
        ({
            let end = record_all(status, reports);
            &&& end.well_formed()
            &&& end.tasks == status.tasks
            &&& end.outcomes.len() == status.outcomes.len()
            &&& end.completed() == status.completed() + reports.len()
            &&& forall|k: int|
                0 <= k < reports.len() ==> end.outcomes[#[trigger] reports[k].index] == Some(
                    reports[k].outcome,
                )
            &&& forall|at: int|
                0 <= at < end.outcomes.len() && (forall|k: int|
                    0 <= k < reports.len() ==> #[trigger] reports[k].index != at)
                    ==> #[trigger] end.outcomes[at] == status.outcomes[at]
            &&& reports.len() > 0 ==> end.phase == if end.completed() == end.total() {
                RunPhase::Finished
            } else {
                RunPhase::Running
            }
        }),
    decreases reports.len(),
{
    if reports.len() > 0 {
        let front = reports.drop_last();
        let report = reports.last();
        let n = front.len() as int;
        assert(report == reports[n]);
        assert forall|k: int| 0 <= k < front.len() implies status.accepts(
            #[trigger] front[k].index,
        ) by {
            assert(front[k] == reports[k]);
        }
        assert forall|k: int, l: int|
            0 <= k < front.len() && 0 <= l < front.len() && k != l implies #[trigger] front[k].index
            != #[trigger] front[l].index by {
            assert(front[k] == reports[k]);
            assert(front[l] == reports[l]);
        }
        lemma_record_all(status, front);
        let before = record_all(status, front);
        // The task of the last report still waits.
        assert(status.accepts(reports[n].index));
        assert forall|k: int| 0 <= k < front.len() implies #[trigger] front[k].index
            != report.index by {
            assert(front[k] == reports[k]);
            assert(reports[k].index != reports[n].index);
        }
        assert(before.outcomes[report.index] == status.outcomes[report.index]);
        lemma_all_recorded(before.outcomes);
        assert(before.accepts(report.index));
        law_recording_counts_once(before, report.index, report.outcome);
        let end = record_all(status, reports);
        assert(end == before.recorded(report.index, report.outcome));
        assert forall|k: int| 0 <= k < reports.len() implies end.outcomes[#[trigger] reports[k].index]
            == Some(reports[k].outcome) by {
            if k < n {
                assert(front[k] == reports[k]);
                assert(front[k].index != report.index);
                assert(before.outcomes[front[k].index] == Some(front[k].outcome));
            }
        }
        assert forall|at: int|
            0 <= at < end.outcomes.len() && (forall|k: int|
                0 <= k < reports.len() ==> #[trigger] reports[k].index != at)
                implies #[trigger] end.outcomes[at] == status.outcomes[at] by {
            assert(reports[n].index != at);
            assert forall|k: int| 0 <= k < front.len() implies #[trigger] front[k].index
                != at by {
                assert(front[k] == reports[k]);
            }
        }
    }
}

/// The order in which workers report does not show in the result: where two
/// runs of reports hold the same reports, one for each of some waiting tasks,
/// the same outcomes stand recorded after either, the runs are equally far,
/// and the summaries are equal. One worker and many come to the same counts;
/// only the order of the messages may differ.
pub proof fn law_any_order_same_summary(
    status: RunStatusView,
    first: Seq<Report>,
    second: Seq<Report>,
)
    requires
        status.well_formed(),
        one_report_each(status, first),
        one_report_each(status, second),
        forall|r: Report| first.contains(r) <==> second.contains(r),
    ensures
        record_all(status, first).outcomes == record_all(status, second).outcomes,
        record_all(status, first).phase == record_all(status, second).phase,
        record_all(status, first).completed() == record_all(status, second).completed(),
        summary_of(status.tasks, record_all(status, first).outcomes) == summary_of(
            status.tasks,
            record_all(status, second).outcomes,
        ),
{
    lemma_record_all(status, first);
    lemma_record_all(status, second);
    let one = record_all(status, first);
    let two = record_all(status, second);
    assert forall|at: int| 0 <= at < one.outcomes.len() implies one.outcomes[at]
        == two.outcomes[at] by {
        if exists|k: int| 0 <= k < first.len() && first[k].index == at {
            let k = choose|k: int| 0 <= k < first.len() && first[k].index == at;
            assert(first.contains(first[k]));
            assert(second.contains(first[k]));
            let l = choose|l: int| 0 <= l < second.len() && second[l] == first[k];
            assert(one.outcomes[first[k].index] == Some(first[k].outcome));
            assert(two.outcomes[second[l].index] == Some(second[l].outcome));
        } else {
            assert forall|l: int| 0 <= l < second.len() implies #[trigger] second[l].index
                != at by {
                if second[l].index == at {
                    assert(second.contains(second[l]));
                    assert(first.contains(second[l]));
                    let k = choose|k: int| 0 <= k < first.len() && first[k] == second[l];
                    assert(first[k].index == at);
                }
            }
            assert(one.outcomes[at] == status.outcomes[at]);
            assert(two.outcomes[at] == status.outcomes[at]);
        }
    }
    assert(one.outcomes =~= two.outcomes);
    if first.len() > 0 {
        assert(first.contains(first[0]));
        let l = choose|l: int| 0 <= l < second.len() && second[l] == first[0];
    } else if second.len() > 0 {
        assert(second.contains(second[0]));
        assert(first.contains(second[0]));
    }
}

/// The state of a run: its tasks, the outcome of each task that is recorded,
/// the task last taken up, and the failures so far.
pub struct RunStatus {
    phase: RunPhase,
    tasks: Vec<ConversionTask>,
    outcomes: Vec<Option<TaskOutcome>>,
    completed: usize,
    current: String,
    errors: Vec<String>,
    failure: Option<RunError>,
}

impl View for RunStatus {
    type V = RunStatusView;

    closed spec fn view(&self) -> RunStatusView {
        RunStatusView {
            phase: self.phase,
            tasks: self.tasks.deep_view(),
            outcomes: self.outcomes@,
            current: self.current@,
            errors: self.errors.deep_view(),
            failure: self.failure,
        }
    }
}

/// The message for a failed task.
fn failure_text(source: &str, reason: TaskError) -> (text: String)
    ensures
        text@ == failure_message(source@, reason),
{
    let mut text = String::from_str(source);
    text.append(": ");
    text.append(reason.reason());
    text
}

/// The label of a task.
fn label_of(task: &ConversionTask) -> (label: String)
    ensures
        label@ == task_label(task.deep_view()),
{
    let mut label = String::from_str(file_name_of(task.source.as_str()));
    label.append(" → ");
    label.append(file_name_of(task.destination.as_str()));
    label
}

/// A copy of a list of texts.
fn copy_texts(texts: &Vec<String>) -> (copy: Vec<String>)
    ensures
        copy.deep_view() == texts.deep_view(),
{
    let mut copy: Vec<String> = Vec::new();
    let mut i: usize = 0;
    while i < texts.len()
        invariant
            i <= texts.len(),
            copy.deep_view() == texts.deep_view().take(i as int),
        decreases texts.len() - i,
    {
        let ghost before = copy.deep_view();
        let text = texts[i].clone();
        copy.push(text);
        assert(copy.deep_view() == before.push(text@));
        assert(texts.deep_view().take(i + 1) == texts.deep_view().take(i as int).push(
            texts.deep_view()[i as int],
        ));
        i = i + 1;
    }
    assert(texts.deep_view().take(i as int) == texts.deep_view());
    copy
}

impl RunStatus {
    #[verifier::type_invariant]
    spec fn consistent(self) -> bool {
        &&& self@.well_formed()
        &&& self.completed == recorded_count(self.outcomes@)
    }

    /// The status before a run: no tasks, nothing recorded, not finished.
    pub fn new() -> (status: RunStatus)
        ensures
            status@ == idle_status(),
            status@.well_formed(),
    {
        let status = RunStatus {
            phase: RunPhase::Idle,
            tasks: Vec::new(),
            outcomes: Vec::new(),
            completed: 0,
            current: String::new(),
            errors: Vec::new(),
            failure: None,
        };
        assert(status@.tasks =~= idle_status().tasks);
        assert(status@.errors =~= idle_status().errors);
        status
    }

    /// The status at the start of a run with these tasks: none is recorded.
    pub fn begin(tasks: Vec<ConversionTask>) -> (status: RunStatus)
        ensures
            status@ == begun_status(tasks.deep_view()),
            status@.well_formed(),
            status@.completed() == 0,
    {
        let n = tasks.len();
        let mut outcomes: Vec<Option<TaskOutcome>> = Vec::new();
        let mut i: usize = 0;
        while i < n
            invariant
                i <= n,
                outcomes@ == Seq::new(i as nat, |k: int| None::<TaskOutcome>),
            decreases n - i,
        {
            outcomes.push(None);
            i = i + 1;
        }
        proof {
            lemma_nothing_recorded(n as nat);
        }
        let status = RunStatus {
            phase: if n == 0 {
                RunPhase::Finished
            } else {
                RunPhase::Running
            },
            tasks,
            outcomes,
            completed: 0,
            current: String::new(),
            errors: Vec::new(),
            failure: None,
        };
        assert(status@.errors =~= Seq::<Seq<char>>::empty());
        status
    }

    /// The number of tasks.
    pub fn total(&self) -> (n: usize)
        ensures
            n == self@.total(),
    {
        self.tasks.len()
    }

    /// The number of tasks recorded. It never exceeds the number of tasks.
    pub fn completed(&self) -> (n: usize)
        ensures
            n == self@.completed(),
            n <= self@.total(),
    {
        proof {
            use_type_invariant(self);
            lemma_all_recorded(self.outcomes@);
        }
        self.completed
    }

    /// Whether the run is finished: every task is recorded, or the run has
    /// failed as a whole.
    pub fn is_done(&self) -> (done: bool)
        ensures
            done == self@.done(),
            done ==> self@.completed() == self@.total() || self@.failure is Some,
    {
        proof {
            use_type_invariant(self);
        }
        match self.phase {
            RunPhase::Finished => true,
            _ => false,
        }
    }

    /// The task at `index`.
    pub fn task(&self, index: usize) -> (task: Option<&ConversionTask>)
        ensures
            match task {
                Some(t) => index < self@.total() && t.deep_view() == self@.tasks[index as int],
                None => index >= self@.total(),
            },
    {
        if index < self.tasks.len() {
            Some(&self.tasks[index])
        } else {
            None
        }
    }

    /// The outcome recorded for the task at `index`, if there is one.
    pub fn outcome(&self, index: usize) -> (outcome: Option<TaskOutcome>)
        ensures
            outcome == if index < self@.outcomes.len() {
                self@.outcomes[index as int]
            } else {
                None
            },
    {
        if index < self.outcomes.len() {
            self.outcomes[index]
        } else {
            None
        }
    }

    /// What a reader sees now.
    pub fn snapshot(&self) -> (seen: StatusSnapshot)
        ensures
            seen.deep_view() == self@.snapshot(),
            seen.completed <= seen.total,
    {
        proof {
            use_type_invariant(self);
            lemma_all_recorded(self.outcomes@);
        }
        StatusSnapshot {
            total: self.tasks.len(),
            completed: self.completed,
            current: self.current.clone(),
            errors: copy_texts(&self.errors),
            done: self.is_done(),
        }
    }

    /// Notes that the task at `index` is taken up: its label becomes the
    /// current one. Refused, with nothing changed, unless that task is
    /// waiting to be recorded.
    pub fn start_task(&mut self, index: usize) -> (accepted: bool)
        ensures
            accepted == old(self)@.accepts(index as int),
            final(self)@ == if accepted {
                old(self)@.started(index as int)
            } else {
                old(self)@
            },
            final(self)@.well_formed(),
    {
        proof {
            use_type_invariant(&*self);
        }
        let waiting = match self.phase {
            RunPhase::Running => index < self.outcomes.len() && self.outcomes[index].is_none(),
            _ => false,
        };
        if !waiting {
            return false;
        }
        self.current = label_of(&self.tasks[index]);
        true
    }

    /// Records the outcome of the task at `index`, in one step: the task is
    /// counted, a failure gets its message, and with the last task the run is
    /// finished. Refused, with nothing changed, unless that task is waiting
    /// to be recorded: no task is recorded twice.
    pub fn record(&mut self, index: usize, outcome: TaskOutcome) -> (accepted: bool)
        ensures
            accepted == old(self)@.accepts(index as int),
            final(self)@ == if accepted {
                old(self)@.recorded(index as int, outcome)
            } else {
                old(self)@
            },
            final(self)@.well_formed(),
            final(self)@.total() == old(self)@.total(),
            final(self)@.completed() == old(self)@.completed() + if accepted {
                1nat
            } else {
                0nat
            },
    {
        let mut taken = RunStatus::new();
        core::mem::swap(self, &mut taken);
        let (next, accepted) = taken.into_recorded(index, outcome);
        *self = next;
        accepted
    }

    fn into_recorded(self, index: usize, outcome: TaskOutcome) -> (result: (RunStatus, bool))
        ensures
            result.1 == self@.accepts(index as int),
            result.0@ == if result.1 {
                self@.recorded(index as int, outcome)
            } else {
                self@
            },
            result.0@.well_formed(),
            result.0@.completed() == self@.completed() + if result.1 {
                1nat
            } else {
                0nat
            },
    {
        proof {
            use_type_invariant(&self);
        }
        let waiting = match self.phase {
            RunPhase::Running => index < self.outcomes.len() && self.outcomes[index].is_none(),
            _ => false,
        };
        if !waiting {
            return (self, false);
        }
        let RunStatus { phase, tasks, mut outcomes, completed, current, mut errors, failure } = self;
        proof {
            law_recording_counts_once(self@, index as int, outcome);
        }
        let ghost errors_before = errors.deep_view();
        match outcome {
            TaskOutcome::Failed(reason) => {
                let text = failure_text(tasks[index].source.as_str(), reason);
                errors.push(text);
                assert(errors.deep_view() == errors_before.push(text@));
            },
            _ => {},
        }
        outcomes.set(index, Some(outcome));
        let last = completed + 1 == tasks.len();
        let next = RunStatus {
            phase: if last {
                RunPhase::Finished
            } else {
                phase
            },
            tasks,
            outcomes,
            completed: completed + 1,
            current: if last {
                String::new()
            } else {
                current
            },
            errors,
            failure,
        };
        assert(next@ == self@.recorded(index as int, outcome));
        (next, true)
    }

    /// Ends the run as failed as a whole: the reason gets its message and the
    /// run is finished. Outcomes are no longer taken.
    pub fn abort(&mut self, error: RunError)
        ensures
            final(self)@ == old(self)@.aborted(error),
            final(self)@.well_formed(),
            final(self)@.done(),
    {
        let mut taken = RunStatus::new();
        core::mem::swap(self, &mut taken);
        *self = taken.into_aborted(error);
    }

    fn into_aborted(self, error: RunError) -> (next: RunStatus)
        ensures
            next@ == self@.aborted(error),
            next@.well_formed(),
    {
        proof {
            use_type_invariant(&self);
        }
        let RunStatus { phase, tasks, outcomes, completed, current, mut errors, failure } = self;
        let ghost errors_before = errors.deep_view();
        let mut text = String::from_str("Conversion failed: ");
        text.append(error.message());
        errors.push(text);
        assert(errors.deep_view() == errors_before.push(text@));
        let next = RunStatus {
            phase: RunPhase::Finished,
            tasks,
            outcomes,
            completed,
            current: String::new(),
            errors,
            failure: Some(error),
        };
        assert(next@ == self@.aborted(error));
        next
    }

    /// The outcomes recorded so far, added up: how many tasks succeeded, how
    /// many were skipped, and which failed. The three add up to the number of
    /// tasks recorded, and so, once all are recorded, to the number of tasks.
    pub fn summary(&self) -> (summary: RunSummary)
        ensures
            summary.deep_view() == summary_of(self@.tasks, self@.outcomes),
            summary.succeeded + summary.skipped + summary.failed.len() == self@.completed(),
            self@.completed() == self@.total() ==> summary.succeeded + summary.skipped
                + summary.failed.len() == self@.total(),
    {
        proof {
            use_type_invariant(self);
        }
        let n = self.outcomes.len();
        let mut succeeded: usize = 0;
        let mut skipped: usize = 0;
        let mut failed: Vec<Failure> = Vec::new();
        let mut i: usize = 0;
        while i < n
            invariant
                n == self.outcomes@.len(),
                n == self.tasks@.len(),
                i <= n,
                succeeded == succeeded_count(self.outcomes@.take(i as int)),
                skipped == skipped_count(self.outcomes@.take(i as int)),
                failed.deep_view() == failures(
                    self.tasks.deep_view().take(i as int),
                    self.outcomes@.take(i as int),
                ),
            decreases n - i,
        {
            let ghost failed_before = failed.deep_view();
            proof {
                let tasks = self.tasks.deep_view();
                let outcomes = self.outcomes@;
                assert(outcomes.take(i + 1).drop_last() == outcomes.take(i as int));
                assert(tasks.take(i + 1).drop_last() == tasks.take(i as int));
                law_counts_add_up(tasks.take(i + 1), outcomes.take(i + 1));
            }
            match self.outcomes[i] {
                Some(TaskOutcome::Success) => {
                    succeeded = succeeded + 1;
                },
                Some(TaskOutcome::Skipped) => {
                    skipped = skipped + 1;
                },
                Some(TaskOutcome::Failed(reason)) => {
                    let failure = Failure { source: self.tasks[i].source.clone(), reason };
                    failed.push(failure);
                    assert(failed.deep_view() == failed_before.push(failure.deep_view()));
                },
                None => {},
            }
            i = i + 1;
        }
        proof {
            assert(self.outcomes@.take(i as int) == self.outcomes@);
            assert(self.tasks.deep_view().take(i as int) == self.tasks.deep_view());
            law_counts_add_up(self.tasks.deep_view(), self.outcomes@);
        }
        RunSummary { succeeded, skipped, failed }
    }
}

impl RunSummary {
    /// The number of tasks that the summary counts.
    pub open spec fn spec_total(&self) -> nat {
        (self.succeeded + self.skipped + self.failed@.len()) as nat
    }

    /// How the run ended: well if no task failed, else with the number of
    /// tasks that failed.
    pub fn verdict(&self) -> (result: Result<(), usize>)
        ensures
            result == if self.failed@.len() == 0 {
                Ok::<(), usize>(())
            } else {
                Err::<(), usize>(self.failed@.len() as usize)
            },
    {
        if self.failed.len() == 0 {
            Ok(())
        } else {
            Err(self.failed.len())
        }
    }
}

} // verus!
