use flac2alac::command::ToolRun;
use flac2alac::discover::{Found, FoundEntry};
use flac2alac::error::RunError;
use flac2alac::overwrite::OverwritePolicy;
use flac2alac::run::{parallelism, prepare_run, Settings, DEFAULT_JOBS, MAX_INTERACTIVE_JOBS};
use flac2alac::task::TaskOptions;

fn entry(path: &str, is_file: bool) -> FoundEntry {
    FoundEntry { path: path.to_string(), is_file }
}

fn album() -> Found {
    Found::Directory(vec![
        entry("in/a.flac", true),
        entry("in/b.flac", true),
        entry("in/notes.txt", true),
        entry("in/c.flac", true),
    ])
}

#[test]
fn the_default_settings() {
    let s = Settings::default();
    assert_eq!(s.input, "");
    assert_eq!(s.output, "");
    assert_eq!(s.jobs, 4);
    assert!(!s.verify);
    assert_eq!(s.overwrite, OverwritePolicy::Skip);
    assert!(!s.dry_run);
    assert_eq!(DEFAULT_JOBS, 4);
    assert_eq!(MAX_INTERACTIVE_JOBS, 16);
}

#[test]
fn the_number_of_jobs_is_what_was_asked_for_or_the_default() {
    assert_eq!(parallelism(None), 4);
    assert_eq!(parallelism(Some(0)), 4);
    assert_eq!(parallelism(Some(1)), 1);
    assert_eq!(parallelism(Some(7)), 7);
    assert_eq!(parallelism(Some(usize::MAX)), usize::MAX);
}

#[test]
fn an_empty_output_field_means_no_output_root() {
    let mut s = Settings::default();
    assert_eq!(s.output_root(), None);
    s.output = "out/dir".to_string();
    assert_eq!(s.output_root(), Some("out/dir"));
}

#[test]
fn a_run_can_start_with_an_input_and_none_under_way() {
    let mut s = Settings::default();
    assert!(!s.can_start(false));
    assert!(!s.can_start(true));
    s.input = "music".to_string();
    assert!(s.can_start(false));
    assert!(!s.can_start(true));
}

#[test]
fn the_settings_give_the_options_of_each_task() {
    let mut s = Settings::default();
    assert_eq!(
        s.task_options(true),
        TaskOptions {
            policy: OverwritePolicy::Skip,
            verify: false,
            simulate: false,
            interactive: true
        }
    );
    s.verify = true;
    s.dry_run = true;
    s.overwrite = OverwritePolicy::Prompt;
    assert_eq!(
        s.task_options(false),
        TaskOptions {
            policy: OverwritePolicy::Prompt,
            verify: true,
            simulate: true,
            interactive: false
        }
    );
}

#[test]
fn a_missing_tool_ends_the_run_before_any_task() {
    for probe in [ToolRun::NotLaunched, ToolRun::Failed] {
        let result = prepare_run(probe, "in", &album(), Some("out"));
        assert_eq!(result.err(), Some(RunError::ToolUnavailable));
    }
}

#[test]
fn a_missing_tool_is_reported_before_missing_input() {
    let result = prepare_run(ToolRun::NotLaunched, "in", &Found::Other, None);
    assert_eq!(result.err(), Some(RunError::ToolUnavailable));
    let result = prepare_run(ToolRun::Failed, "in", &Found::Directory(vec![]), None);
    assert_eq!(result.err(), Some(RunError::ToolUnavailable));
}

#[test]
fn nothing_to_convert_ends_the_run_before_any_task() {
    let result = prepare_run(ToolRun::Succeeded, "in", &Found::Directory(vec![]), None);
    assert_eq!(result.err(), Some(RunError::NoInputFiles));
    let result = prepare_run(ToolRun::Succeeded, "in.txt", &Found::File, None);
    assert_eq!(result.err(), Some(RunError::NoInputFiles));
    let result = prepare_run(ToolRun::Succeeded, "gone", &Found::Other, Some("out"));
    assert_eq!(result.err(), Some(RunError::NoInputFiles));
}

#[test]
fn a_run_starts_with_the_tasks_found() {
    let status = prepare_run(ToolRun::Succeeded, "in", &album(), Some("out")).ok().unwrap();
    assert_eq!(status.total(), 3);
    assert_eq!(status.completed(), 0);
    assert!(!status.is_done());
    assert_eq!(status.task(0).unwrap().source, "in/a.flac");
    assert_eq!(status.task(0).unwrap().destination, "out/a.m4a");
    assert_eq!(status.task(2).unwrap().source, "in/c.flac");
    assert_eq!(status.task(2).unwrap().destination, "out/c.m4a");
}
