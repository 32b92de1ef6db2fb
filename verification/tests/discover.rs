use flac2alac::discover::{collect_tasks, discover, ConversionTask, Found, FoundEntry};
use flac2alac::error::RunError;

fn entry(path: &str, is_file: bool) -> FoundEntry {
    FoundEntry { path: path.to_string(), is_file }
}

fn pairs(tasks: &[ConversionTask]) -> Vec<(String, String)> {
    tasks.iter().map(|t| (t.source.clone(), t.destination.clone())).collect()
}

fn pair(a: &str, b: &str) -> (String, String) {
    (a.to_string(), b.to_string())
}

#[test]
fn three_matching_files_and_one_other_give_three_tasks() {
    let found = Found::Directory(vec![
        entry("music", false),
        entry("music/a.flac", true),
        entry("music/cover.jpg", true),
        entry("music/b.flac", true),
        entry("music/c.FLAC", true),
    ]);
    let tasks = collect_tasks("music", &found, None);
    assert_eq!(tasks.len(), 3);
    assert_eq!(
        pairs(&tasks),
        vec![
            pair("music/a.flac", "music/a.m4a"),
            pair("music/b.flac", "music/b.m4a"),
            pair("music/c.FLAC", "music/c.m4a"),
        ]
    );
}

#[test]
fn tasks_keep_the_order_of_the_walk() {
    let found = Found::Directory(vec![
        entry("in/z.flac", true),
        entry("in/a.flac", true),
        entry("in/m/k.flac", true),
        entry("in/b.flac", true),
    ]);
    let tasks = collect_tasks("in", &found, Some("out"));
    assert_eq!(
        pairs(&tasks),
        vec![
            pair("in/z.flac", "out/z.m4a"),
            pair("in/a.flac", "out/a.m4a"),
            pair("in/m/k.flac", "out/m/k.m4a"),
            pair("in/b.flac", "out/b.m4a"),
        ]
    );
}

#[test]
fn entries_that_are_no_regular_files_are_passed_over() {
    let found = Found::Directory(vec![
        entry("in", false),
        entry("in/album.flac", false),
        entry("in/album.flac/01.flac", true),
        entry("in/broken-link.flac", false),
    ]);
    let tasks = collect_tasks("in", &found, Some("out"));
    assert_eq!(pairs(&tasks), vec![pair("in/album.flac/01.flac", "out/album.flac/01.m4a")]);
}

#[test]
fn files_of_other_formats_are_passed_over() {
    let found = Found::Directory(vec![
        entry("in/a.mp3", true),
        entry("in/b.flac.tmp", true),
        entry("in/.flac", true),
        entry("in/flac", true),
        entry("in/c.m4a", true),
    ]);
    assert_eq!(collect_tasks("in", &found, None).len(), 0);
    assert_eq!(discover("in", &found, None).unwrap_err(), RunError::NoInputFiles);
}

#[test]
fn subdirectories_are_kept_under_the_output_root() {
    let found = Found::Directory(vec![
        entry("/lib/Artist/Album/01 - One.flac", true),
        entry("/lib/Artist/Album/CD2/01 - Two.flac", true),
        entry("/lib/Solo.Flac", true),
    ]);
    let tasks = collect_tasks("/lib", &found, Some("/alac/"));
    assert_eq!(
        pairs(&tasks),
        vec![
            pair("/lib/Artist/Album/01 - One.flac", "/alac/Artist/Album/01 - One.m4a"),
            pair("/lib/Artist/Album/CD2/01 - Two.flac", "/alac/Artist/Album/CD2/01 - Two.m4a"),
            pair("/lib/Solo.Flac", "/alac/Solo.m4a"),
        ]
    );
}

#[test]
fn every_destination_has_the_target_extension() {
    let found = Found::Directory(vec![
        entry("in/a.flac", true),
        entry("in/b.c.FLAC", true),
        entry("in/d/e.fLaC", true),
    ]);
    for out in [None, Some("out"), Some("out/"), Some("")] {
        let tasks = collect_tasks("in", &found, out);
        assert_eq!(tasks.len(), 3);
        for t in &tasks {
            assert_eq!(std::path::Path::new(&t.destination).extension().unwrap(), "m4a");
            assert_eq!(
                std::path::Path::new(&t.destination).file_stem(),
                std::path::Path::new(&t.source).file_stem()
            );
        }
    }
}

#[test]
fn a_single_source_file_gives_one_task() {
    let tasks = collect_tasks("music/album/a.flac", &Found::File, None);
    assert_eq!(pairs(&tasks), vec![pair("music/album/a.flac", "music/album/a.m4a")]);
    let tasks = collect_tasks("music/album/a.flac", &Found::File, Some("out"));
    assert_eq!(pairs(&tasks), vec![pair("music/album/a.flac", "out/a.m4a")]);
}

#[test]
fn a_single_file_of_another_format_gives_none() {
    assert_eq!(collect_tasks("music/a.mp3", &Found::File, None).len(), 0);
    assert_eq!(discover("music/a.mp3", &Found::File, Some("out")).unwrap_err(), RunError::NoInputFiles);
}

#[test]
fn the_entries_are_not_looked_at_for_a_single_file() {
    let tasks = discover("a.flac", &Found::File, None).unwrap();
    assert_eq!(pairs(&tasks), vec![pair("a.flac", "a.m4a")]);
}

#[test]
fn an_input_that_is_neither_file_nor_directory_gives_no_input_files() {
    assert_eq!(collect_tasks("missing.flac", &Found::Other, None).len(), 0);
    assert_eq!(discover("missing.flac", &Found::Other, None).unwrap_err(), RunError::NoInputFiles);
}

#[test]
fn an_empty_directory_gives_no_input_files() {
    assert_eq!(discover("in", &Found::Directory(vec![]), None).unwrap_err(), RunError::NoInputFiles);
    assert_eq!(
        discover("in", &Found::Directory(vec![entry("in", false)]), Some("out")).unwrap_err(),
        RunError::NoInputFiles
    );
}

#[test]
fn discover_gives_the_tasks_where_there_are_some() {
    let found = Found::Directory(vec![entry("in/a.flac", true), entry("in/b.txt", true)]);
    let tasks = discover("in", &found, Some("out")).unwrap();
    assert_eq!(pairs(&tasks), vec![pair("in/a.flac", "out/a.m4a")]);
}
