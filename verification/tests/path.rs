use flac2alac::error::TaskError;
use flac2alac::path::{
    default_out_path, file_name_of, find_last, has_source_extension, join, map_to_out,
    strip_prefix, SEPARATOR,
};

fn ok(s: &str) -> Result<String, TaskError> {
    Ok(s.to_string())
}

#[test]
fn separator_is_the_slash() {
    assert_eq!(SEPARATOR, '/');
}

#[test]
fn find_last_gives_the_last_place() {
    let c: Vec<char> = "a/b/c".chars().collect();
    assert_eq!(find_last(&c, '/'), Some(3));
    assert_eq!(find_last(&c, 'a'), Some(0));
    assert_eq!(find_last(&c, 'x'), None);
    assert_eq!(find_last(&[], 'x'), None);
}

#[test]
fn file_name_is_what_follows_the_last_separator() {
    assert_eq!(file_name_of("a/b/c.flac"), "c.flac");
    assert_eq!(file_name_of("c.flac"), "c.flac");
    assert_eq!(file_name_of("/c.flac"), "c.flac");
    assert_eq!(file_name_of("a/b/"), "");
    assert_eq!(file_name_of(""), "");
    assert_eq!(file_name_of("é/ü→.m4a"), "ü→.m4a");
}

#[test]
fn source_files_have_the_extension_flac_in_any_case() {
    for p in ["a.flac", "a.FLAC", "a.FlAc", "dir/a.flac", "/x/y/z.Flac", "a.b.flac", "..flac", "dir.d/é.flac"] {
        assert!(has_source_extension(p), "{:?}", p);
    }
}

#[test]
fn other_paths_are_no_source_files() {
    for p in [
        "", "flac", ".flac", "dir/.flac", "a.mp3", "a.flac.bak", "a.flacx", "a.fla", "a.flac/",
        "dir.flac/b", "dir.flac/", "a.", "a", ".", "..", "dir/..", "a .flac ", "a.flac ",
        "a.ｆlac",
    ] {
        assert!(!has_source_extension(p), "{:?}", p);
    }
}

#[test]
fn join_puts_one_separator_between() {
    assert_eq!(join("out", "a.m4a"), "out/a.m4a");
    assert_eq!(join("out/", "a.m4a"), "out/a.m4a");
    assert_eq!(join("", "a.m4a"), "a.m4a");
    assert_eq!(join("/", "a.m4a"), "/a.m4a");
    assert_eq!(join("out", "sub/a.m4a"), "out/sub/a.m4a");
    assert_eq!(join("out", ""), "out/");
    assert_eq!(join("", ""), "");
}

#[test]
fn join_lets_an_absolute_path_stand() {
    assert_eq!(join("out", "/abs/a.m4a"), "/abs/a.m4a");
    assert_eq!(join("", "/"), "/");
}

#[test]
fn strip_prefix_gives_what_lies_under_the_root() {
    assert_eq!(strip_prefix("in/sub/a.flac", "in"), Some("sub/a.flac"));
    assert_eq!(strip_prefix("in/sub/a.flac", "in/"), Some("sub/a.flac"));
    assert_eq!(strip_prefix("in/sub/a.flac", "in/sub"), Some("a.flac"));
    assert_eq!(strip_prefix("in//a.flac", "in"), Some("a.flac"));
    assert_eq!(strip_prefix("in//a.flac", "in/"), Some("a.flac"));
    assert_eq!(strip_prefix("/a.flac", "/"), Some("a.flac"));
    assert_eq!(strip_prefix("a.flac", ""), Some("a.flac"));
    assert_eq!(strip_prefix("/a.flac", ""), Some("a.flac"));
    assert_eq!(strip_prefix("in", "in"), Some(""));
    assert_eq!(strip_prefix("in/", "in"), Some(""));
}

#[test]
fn strip_prefix_wants_the_root_to_end_with_a_directory() {
    assert_eq!(strip_prefix("input/a.flac", "in"), None);
    assert_eq!(strip_prefix("in/a.flac", "out"), None);
    assert_eq!(strip_prefix("in", "in/sub"), None);
    assert_eq!(strip_prefix("in/a.flac", "in/a"), None);
    assert_eq!(strip_prefix("", "in"), None);
}

#[test]
fn a_single_file_is_written_beside_itself() {
    assert_eq!(default_out_path("music/a.flac", None), ok("music/a.m4a"));
    assert_eq!(default_out_path("a.flac", None), ok("a.m4a"));
    assert_eq!(default_out_path("/abs/dir/Song.FLAC", None), ok("/abs/dir/Song.m4a"));
}

#[test]
fn a_single_file_goes_straight_into_the_output_root() {
    assert_eq!(default_out_path("music/album/a.flac", Some("out")), ok("out/a.m4a"));
    assert_eq!(default_out_path("a.flac", Some("out/")), ok("out/a.m4a"));
    assert_eq!(default_out_path("/abs/a.flac", Some("/dst/x")), ok("/dst/x/a.m4a"));
    assert_eq!(default_out_path("a.flac", Some("")), ok("a.m4a"));
}

#[test]
fn only_the_last_extension_is_replaced() {
    assert_eq!(default_out_path("a.b.flac", None), ok("a.b.m4a"));
    assert_eq!(default_out_path("d/01. Intro.flac", Some("o")), ok("o/01. Intro.m4a"));
    assert_eq!(default_out_path("d.x/a.flac", None), ok("d.x/a.m4a"));
    assert_eq!(default_out_path("d.x/a", None), ok("d.x/a.m4a"));
}

#[test]
fn a_name_without_extension_gets_one() {
    assert_eq!(default_out_path("noext", None), ok("noext.m4a"));
    assert_eq!(default_out_path(".hidden", None), ok(".hidden.m4a"));
    assert_eq!(default_out_path("a.", None), ok("a.m4a"));
}

#[test]
fn a_path_without_file_name_is_invalid() {
    for p in ["", "dir/", "/", ".", "..", "dir/.", "dir/.."] {
        assert_eq!(default_out_path(p, None), Err(TaskError::InvalidPath), "{:?}", p);
        assert_eq!(default_out_path(p, Some("out")), Err(TaskError::InvalidPath), "{:?}", p);
        assert_eq!(map_to_out(p, "", None), Err(TaskError::InvalidPath), "{:?}", p);
        assert_eq!(map_to_out(p, "dir", Some("out")), Err(TaskError::InvalidPath), "{:?}", p);
    }
}

#[test]
fn without_output_root_a_found_file_is_written_beside_itself() {
    assert_eq!(map_to_out("in/sub/a.flac", "in", None), ok("in/sub/a.m4a"));
    assert_eq!(map_to_out("in/a.flac", "in", None), ok("in/a.m4a"));
}

#[test]
fn with_output_root_the_place_under_the_input_is_kept() {
    assert_eq!(map_to_out("in/sub/a.flac", "in", Some("out")), ok("out/sub/a.m4a"));
    assert_eq!(map_to_out("in/sub/a.flac", "in/", Some("out/")), ok("out/sub/a.m4a"));
    assert_eq!(map_to_out("in/a/b/c/d.FLAC", "in", Some("/dst")), ok("/dst/a/b/c/d.m4a"));
    assert_eq!(map_to_out("in/a.flac", "in", Some("out")), ok("out/a.m4a"));
    assert_eq!(map_to_out("/m/x.y/z.w.flac", "/m", Some("o")), ok("o/x.y/z.w.m4a"));
    assert_eq!(map_to_out("sub/a.flac", "", Some("out")), ok("out/sub/a.m4a"));
}

#[test]
fn a_file_outside_the_input_root_keeps_its_whole_path() {
    assert_eq!(map_to_out("other/a.flac", "in", Some("out")), ok("out/other/a.m4a"));
    assert_eq!(map_to_out("/abs/a.flac", "in", Some("out")), ok("/abs/a.m4a"));
    assert_eq!(map_to_out("in/a.flac", "in/a.flac", Some("out")), ok("out/in/a.m4a"));
}
