use std::collections::BTreeSet;

use flac2alac::command::ToolRun;
use flac2alac::discover::{Found, FoundEntry};
use flac2alac::error::{RunError, TaskError};
use flac2alac::overwrite::OverwritePolicy;
use flac2alac::run::prepare_run;
use flac2alac::status::{RunStatus, RunSummary};
use flac2alac::task::{TaskAction, TaskEvent, TaskOptions, TaskOutcome, TaskState};

/// A disk that holds file names only, and a transcoder that writes to it.
struct Disk {
    files: BTreeSet<String>,
    transcodes: usize,
    writes: usize,
    decodes: usize,
    questions: usize,
    announced: usize,
    broken: BTreeSet<String>,
}

impl Disk {
    fn with(files: &[&str]) -> Disk {
        Disk {
            files: files.iter().map(|f| f.to_string()).collect(),
            transcodes: 0,
            writes: 0,
            decodes: 0,
            questions: 0,
            announced: 0,
            broken: BTreeSet::new(),
        }
    }

    fn listing(&self, root: &str) -> Found {
        let prefix = format!("{}/", root);
        Found::Directory(
            self.files
                .iter()
                .filter(|f| f.starts_with(&prefix))
                .map(|f| FoundEntry { path: f.clone(), is_file: true })
                .collect(),
        )
    }

    fn digest(&self, path: &str) -> Option<Vec<u8>> {
        let stem = path.rsplit('/').next().unwrap().split('.').next().unwrap();
        if self.broken.contains(path) {
            Some(vec![0; 32])
        } else {
            Some(stem.bytes().cycle().take(32).collect())
        }
    }

    /// Carries out one task as a front end would.
    fn carry_out(&mut self, options: TaskOptions, source: &str, destination: &str) -> TaskOutcome {
        let (mut state, mut action) = TaskState::start(options);
        loop {
            let event = match action {
                TaskAction::ProbeDestination => {
                    TaskEvent::DestinationProbed { exists: self.files.contains(destination) }
                }
                TaskAction::AskOperator => {
                    self.questions += 1;
                    TaskEvent::OperatorAnswered { answer: "n\n".to_string() }
                }
                TaskAction::Transcode => {
                    self.transcodes += 1;
                    let ok = !source.contains("bad");
                    if ok {
                        self.writes += 1;
                        self.files.insert(destination.to_string());
                    }
                    TaskEvent::Transcoded { ok }
                }
                TaskAction::DecodeSource => {
                    self.decodes += 1;
                    TaskEvent::Decoded { digest: self.digest(source) }
                }
                TaskAction::DecodeDestination => {
                    self.decodes += 1;
                    TaskEvent::Decoded { digest: self.digest(destination) }
                }
                TaskAction::Announce => {
                    self.announced += 1;
                    break;
                }
                TaskAction::Done => break,
            };
            let (next, then) = state.step(event);
            state = next;
            action = then;
        }
        state.outcome().unwrap()
    }

    /// A whole run over `root`, the tasks taken in the order `order` gives.
    fn run(
        &mut self,
        options: TaskOptions,
        root: &str,
        out: Option<&str>,
        order: &dyn Fn(usize) -> Vec<usize>,
    ) -> Result<(RunStatus, RunSummary), RunError> {
        let mut status = prepare_run(ToolRun::Succeeded, root, &self.listing(root), out)?;
        for i in order(status.total()) {
            assert!(status.start_task(i));
            let (source, destination) = {
                let t = status.task(i).unwrap();
                (t.source.clone(), t.destination.clone())
            };
            let outcome = self.carry_out(options, &source, &destination);
            assert!(status.record(i, outcome));
        }
        assert!(status.is_done());
        let summary = status.summary();
        Ok((status, summary))
    }
}

fn forward(n: usize) -> Vec<usize> {
    (0..n).collect()
}

fn backward(n: usize) -> Vec<usize> {
    (0..n).rev().collect()
}

fn shuffled(n: usize) -> Vec<usize> {
    let mut v: Vec<usize> = (0..n).filter(|i| i % 2 == 1).collect();
    v.extend((0..n).filter(|i| i % 2 == 0));
    v
}

fn options(policy: OverwritePolicy) -> TaskOptions {
    TaskOptions { policy, verify: false, simulate: false, interactive: true }
}

const LIBRARY: [&str; 5] =
    ["lib/a.flac", "lib/b.flac", "lib/x/c.FLAC", "lib/x/cover.jpg", "lib/x/y/d.flac"];

#[test]
fn a_second_run_with_skip_converts_nothing() {
    let mut disk = Disk::with(&LIBRARY);
    let o = options(OverwritePolicy::Skip);
    let (_, first) = disk.run(o, "lib", Some("out"), &forward).unwrap();
    assert_eq!(first, RunSummary { succeeded: 4, skipped: 0, failed: vec![] });
    assert_eq!(disk.transcodes, 4);
    for f in ["out/a.m4a", "out/b.m4a", "out/x/c.m4a", "out/x/y/d.m4a"] {
        assert!(disk.files.contains(f), "{}", f);
    }
    let (_, second) = disk.run(o, "lib", Some("out"), &forward).unwrap();
    assert_eq!(second, RunSummary { succeeded: 0, skipped: 4, failed: vec![] });
    assert_eq!(disk.transcodes, 4);
    assert_eq!(disk.writes, 4);
    assert_eq!(second.verdict(), Ok(()));
}

#[test]
fn a_second_run_with_skip_beside_the_sources_converts_nothing() {
    let mut disk = Disk::with(&LIBRARY);
    let o = options(OverwritePolicy::Skip);
    let (_, first) = disk.run(o, "lib", None, &forward).unwrap();
    assert_eq!(first.succeeded, 4);
    assert!(disk.files.contains("lib/x/c.m4a"));
    let (_, second) = disk.run(o, "lib", None, &backward).unwrap();
    assert_eq!(second, RunSummary { succeeded: 0, skipped: 4, failed: vec![] });
    assert_eq!(disk.transcodes, 4);
}

#[test]
fn every_run_with_replace_converts_again() {
    let mut disk = Disk::with(&LIBRARY);
    let o = options(OverwritePolicy::Replace);
    for round in 1..=3 {
        let (_, summary) = disk.run(o, "lib", Some("out"), &forward).unwrap();
        assert_eq!(summary, RunSummary { succeeded: 4, skipped: 0, failed: vec![] });
        assert_eq!(disk.transcodes, 4 * round);
    }
}

#[test]
fn a_simulated_run_writes_nothing_and_still_reports_every_task() {
    let mut disk = Disk::with(&LIBRARY);
    let before = disk.files.clone();
    for policy in [OverwritePolicy::Skip, OverwritePolicy::Prompt, OverwritePolicy::Replace] {
        let o = TaskOptions { policy, verify: true, simulate: true, interactive: true };
        let (status, summary) = disk.run(o, "lib", Some("out"), &forward).unwrap();
        assert_eq!(summary, RunSummary { succeeded: 4, skipped: 0, failed: vec![] });
        assert_eq!(status.completed(), 4);
        for i in 0..4 {
            assert_eq!(status.outcome(i), Some(TaskOutcome::Success));
        }
    }
    assert_eq!(disk.announced, 12);
    assert_eq!(disk.transcodes, 0);
    assert_eq!(disk.writes, 0);
    assert_eq!(disk.decodes, 0);
    assert_eq!(disk.questions, 0);
    assert_eq!(disk.files, before);
}

#[test]
fn a_simulated_run_with_prompt_skips_what_exists_without_asking() {
    let mut disk = Disk::with(&["lib/a.flac", "lib/b.flac", "out/a.m4a"]);
    let o = TaskOptions {
        policy: OverwritePolicy::Prompt,
        verify: false,
        simulate: true,
        interactive: true,
    };
    let (_, summary) = disk.run(o, "lib", Some("out"), &forward).unwrap();
    assert_eq!(summary, RunSummary { succeeded: 1, skipped: 1, failed: vec![] });
    assert_eq!(disk.questions, 0);
    assert_eq!(disk.transcodes, 0);
    assert_eq!(disk.announced, 1);
}

#[test]
fn a_failing_task_does_not_stop_the_others() {
    let mut disk = Disk::with(&["lib/a.flac", "lib/bad.flac", "lib/c.flac", "lib/d.flac"]);
    disk.files.insert("out/d.m4a".to_string());
    let (status, summary) =
        disk.run(options(OverwritePolicy::Skip), "lib", Some("out"), &forward).unwrap();
    assert_eq!(summary.succeeded, 2);
    assert_eq!(summary.skipped, 1);
    assert_eq!(summary.failed.len(), 1);
    assert_eq!(summary.failed[0].source, "lib/bad.flac");
    assert_eq!(summary.failed[0].reason, TaskError::TranscodeFailure);
    assert_eq!(summary.verdict(), Err(1));
    assert_eq!(disk.transcodes, 3);
    assert_eq!(
        status.snapshot().errors,
        vec!["lib/bad.flac: ffmpeg failed to convert the file"]
    );
}

#[test]
fn a_corrupted_destination_fails_verification() {
    let mut disk = Disk::with(&["lib/a.flac", "lib/b.flac"]);
    disk.broken.insert("out/b.m4a".to_string());
    let o = TaskOptions { verify: true, ..options(OverwritePolicy::Replace) };
    let (_, summary) = disk.run(o, "lib", Some("out"), &forward).unwrap();
    assert_eq!(summary.succeeded, 1);
    assert_eq!(summary.failed.len(), 1);
    assert_eq!(summary.failed[0].source, "lib/b.flac");
    assert_eq!(summary.failed[0].reason, TaskError::VerificationMismatch);
    assert_eq!(disk.decodes, 4);
}

#[test]
fn the_counts_add_up_to_the_tasks_in_any_order() {
    let files = ["lib/a.flac", "lib/bad1.flac", "lib/c.flac", "lib/d.flac", "lib/bad2.flac",
        "lib/f.flac", "lib/g.txt"];
    let mut expected: Option<RunSummary> = None;
    let orders: [&dyn Fn(usize) -> Vec<usize>; 3] = [&forward, &backward, &shuffled];
    for order in orders {
        let mut disk = Disk::with(&files);
        disk.files.insert("out/c.m4a".to_string());
        disk.files.insert("out/f.m4a".to_string());
        let (status, summary) =
            disk.run(options(OverwritePolicy::Skip), "lib", Some("out"), order).unwrap();
        assert_eq!(status.total(), 6);
        assert_eq!(summary.succeeded + summary.skipped + summary.failed.len(), 6);
        assert_eq!(summary.succeeded, 2);
        assert_eq!(summary.skipped, 2);
        assert_eq!(summary.failed.len(), 2);
        match &expected {
            None => expected = Some(summary),
            Some(e) => assert_eq!(&summary, e),
        }
    }
}

#[test]
fn a_run_without_source_files_does_not_start() {
    let mut disk = Disk::with(&["lib/a.mp3", "lib/b.txt"]);
    let result = disk.run(options(OverwritePolicy::Skip), "lib", None, &forward);
    assert_eq!(result.err(), Some(RunError::NoInputFiles));
    assert_eq!(disk.transcodes, 0);
}
