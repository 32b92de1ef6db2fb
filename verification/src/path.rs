//! Paths as texts, and where a converted file goes.
//!
//! A path is a text whose directories are separated by `/`. What follows the
//! last separator is the file name; the text up to and with that separator is
//! the directory. A file name ends in an extension if it holds a dot that is
//! not its first character: the extension is what follows the last dot, the
//! stem what comes before it.
//!
//! A converted file keeps the stem of its source and gets the extension
//! `m4a`. It lies beside its source, or, where an output root is given, under
//! that root at the place that the source has under the input root.

use vstd::prelude::*;
use vstd::slice::slice_subrange;
use crate::error::TaskError;
use crate::text::{eq_ignore_ascii_case, same_ignoring_case, to_chars};

verus! {

/// The character that separates the directories of a path.
pub const SEPARATOR: char = '/';

/// The extension of the files that are converted, in any case of letters.
pub open spec fn source_extension() -> Seq<char> {
    "flac"@
}

/// The extension of the files that are written.
pub open spec fn target_extension() -> Seq<char> {
    "m4a"@
}

/// The place of the last `c` in `s`, or -1 if there is none.
pub open spec fn last_index_of(s: Seq<char>, c: char) -> int
    decreases s.len(),
{
    if s.len() == 0 {
        -1
    } else if s.last() == c {
        s.len() - 1
    } else {
        last_index_of(s.drop_last(), c)
    }
}

/// Where the file name of `path` starts: after the last separator, or at 0.
pub open spec fn name_start(path: Seq<char>) -> int {
    last_index_of(path, SEPARATOR) + 1
}

/// What follows the last separator of `path`.
pub open spec fn file_name(path: Seq<char>) -> Seq<char> {
    path.subrange(name_start(path), path.len() as int)
}

/// `path` up to and with its last separator; empty if it has none.
pub open spec fn directory(path: Seq<char>) -> Seq<char> {
    path.subrange(0, name_start(path))
}

/// Whether `path` names a file: its file name is not empty and is neither `.`
/// nor `..`.
pub open spec fn names_file(path: Seq<char>) -> bool {
    let name = file_name(path);
    name.len() > 0 && name != seq!['.'] && name != seq!['.', '.']
}

/// The length of the stem of a file name: up to its last dot, or all of it
/// where it has no dot but possibly a first one.
pub open spec fn stem_len(name: Seq<char>) -> int {
    let dot = last_index_of(name, '.');
    if dot <= 0 {
        name.len() as int
    } else {
        dot
    }
}

/// The file name of `path` without its extension.
pub open spec fn file_stem(path: Seq<char>) -> Seq<char> {
    file_name(path).subrange(0, stem_len(file_name(path)))
}

/// The extension of the file name of `path`, without the dot.
pub open spec fn extension(path: Seq<char>) -> Option<Seq<char>> {
    let name = file_name(path);
    let dot = last_index_of(name, '.');
    if dot <= 0 {
        None
    } else {
        Some(name.subrange(dot + 1, name.len() as int))
    }
}

/// Whether `path` names a file of the source format: a file with the
/// extension `flac`, in any case of letters.
pub open spec fn is_source_file(path: Seq<char>) -> bool {
    &&& names_file(path)
    &&& extension(path) matches Some(ext)
    &&& same_ignoring_case(ext, source_extension())
}

/// The name of the converted file for a source of the name `name`: the stem,
/// a dot, and the target extension.
pub open spec fn converted_name(name: Seq<char>) -> Seq<char> {
    name.subrange(0, stem_len(name)) + seq!['.'] + target_extension()
}

/// `path` with the extension of its file name replaced by the target
/// extension.
pub open spec fn with_target_extension(path: Seq<char>) -> Seq<char> {
    directory(path) + converted_name(file_name(path))
}

/// `rel` under `root`. One that starts with a separator is absolute and
/// stands for itself.
pub open spec fn joined(root: Seq<char>, rel: Seq<char>) -> Seq<char> {
    if rel.len() > 0 && rel[0] == SEPARATOR {
        rel
    } else if root.len() == 0 || root.last() == SEPARATOR {
        root + rel
    } else {
        root + seq![SEPARATOR] + rel
    }
}

/// The number of separators at the start of `s`.
pub open spec fn leading_separators(s: Seq<char>) -> nat
    decreases s.len(),
{
    if s.len() > 0 && s[0] == SEPARATOR {
        1 + leading_separators(s.drop_first())
    } else {
        0
    }
}

/// Whether `path` lies under `root` or is `root`: it starts with `root`, and
/// `root` ends where a directory of `path` ends.
pub open spec fn is_under(path: Seq<char>, root: Seq<char>) -> bool {
    &&& root.len() <= path.len()
    &&& path.subrange(0, root.len() as int) == root
    &&& (root.len() == 0 || root.last() == SEPARATOR || root.len() == path.len()
        || path[root.len() as int] == SEPARATOR)
}

/// What `path` is under `root`: the rest of `path` after `root` and the
/// separators that follow it; nothing where `path` does not lie under `root`.
pub open spec fn relative_to(path: Seq<char>, root: Seq<char>) -> Option<Seq<char>> {
    if is_under(path, root) {
        let rest = path.skip(root.len() as int);
        Some(rest.skip(leading_separators(rest) as int))
    } else {
        None
    }
}

/// Where the converted file of the single file `file` goes: beside `file`,
/// or straight into `out_root` where one is given. Nothing where `file` names
/// no file.
pub open spec fn default_destination(file: Seq<char>, out_root: Option<Seq<char>>) -> Option<
    Seq<char>,
> {
    if !names_file(file) {
        None
    } else {
        Some(
            match out_root {
                Some(dir) => joined(dir, converted_name(file_name(file))),
                None => with_target_extension(file),
            },
        )
    }
}

/// Whether `file` lies below `in_root`: under it, and not `in_root` itself.
pub open spec fn is_below(file: Seq<char>, in_root: Seq<char>) -> bool {
    relative_to(file, in_root) matches Some(rel) && rel.len() > 0
}

/// The part of `file` that is kept under an output root: what `file` is
/// under `in_root`, or all of `file` where it does not lie below `in_root`.
pub open spec fn kept_part(file: Seq<char>, in_root: Seq<char>) -> Seq<char> {
    if is_below(file, in_root) {
        relative_to(file, in_root)->0
    } else {
        file
    }
}

/// Where the converted file of `file`, found under `in_root`, goes: beside
/// `file`, or where an output root is given, under it at the place that
/// `file` has under `in_root`. Nothing where `file` names no file.
pub open spec fn mapped_destination(
    file: Seq<char>,
    in_root: Seq<char>,
    out_root: Option<Seq<char>>,
) -> Option<Seq<char>> {
    if !names_file(file) {
        None
    } else {
        Some(
            match out_root {
                Some(dir) => joined(dir, with_target_extension(kept_part(file, in_root))),
                None => with_target_extension(file),
            },
        )
    }
}

/// `last_index_of` is the place `k` if `c` stands there, or `k` is -1, and
/// no `c` follows.
pub proof fn lemma_last_index_is(s: Seq<char>, c: char, k: int)
    requires
        -1 <= k < s.len(),
        k >= 0 ==> s[k] == c,
        forall|i: int| k < i < s.len() ==> s[i] != c,
    ensures
        last_index_of(s, c) == k,
    decreases s.len(),
{
    if s.len() > 0 && k < s.len() - 1 {
        lemma_last_index_is(s.drop_last(), c, k);
    }
}

/// What `last_index_of` gives: -1 or a place where `c` stands, and no `c`
/// follows it.
pub proof fn lemma_last_index_of(s: Seq<char>, c: char)
    ensures
        -1 <= last_index_of(s, c) < s.len(),
        last_index_of(s, c) >= 0 ==> s[last_index_of(s, c)] == c,
        forall|i: int| last_index_of(s, c) < i < s.len() ==> s[i] != c,
    decreases s.len(),
{
    if s.len() > 0 && s.last() != c {
        let front = s.drop_last();
        lemma_last_index_of(front, c);
        assert forall|i: int| last_index_of(s, c) < i < s.len() implies s[i] != c by {
            if i < front.len() {
                assert(front[i] == s[i]);
            }
        }
    }
}

/// A path is its directory followed by its file name, and the file name
/// holds no separator.
pub proof fn lemma_directory_and_name(path: Seq<char>)
    ensures
        0 <= name_start(path) <= path.len(),
        directory(path) + file_name(path) == path,
        forall|i: int| 0 <= i < file_name(path).len() ==> file_name(path)[i] != SEPARATOR,
        directory(path).len() == 0 || directory(path).last() == SEPARATOR,
{
    lemma_last_index_of(path, SEPARATOR);
    assert(directory(path) + file_name(path) =~= path);
}

/// Where `dir` is empty or ends in a separator and `name` holds none, the
/// path `dir + name` has the directory `dir` and the file name `name`.
pub proof fn lemma_name_of_concat(dir: Seq<char>, name: Seq<char>)
    requires
        dir.len() == 0 || dir.last() == SEPARATOR,
        forall|i: int| 0 <= i < name.len() ==> name[i] != SEPARATOR,
    ensures
        name_start(dir + name) == dir.len(),
        directory(dir + name) == dir,
        file_name(dir + name) == name,
{
    let path = dir + name;
    assert forall|i: int| dir.len() - 1 < i < path.len() implies path[i] != SEPARATOR by {
        assert(path[i] == name[i - dir.len()]);
    }
    lemma_last_index_is(path, SEPARATOR, dir.len() - 1);
    assert(directory(path) =~= dir);
    assert(file_name(path) =~= name);
}

/// The converted name of a file name that is not empty: it is made of the
/// same stem, has the target extension, holds no separator if `name` holds
/// none, and is itself the name of a file.
pub proof fn lemma_converted_name(name: Seq<char>)
    requires
        name.len() > 0,
    ensures
        0 < stem_len(name) <= name.len(),
        last_index_of(converted_name(name), '.') == stem_len(name),
        stem_len(converted_name(name)) == stem_len(name),
        converted_name(name).subrange(0, stem_len(name)) == name.subrange(0, stem_len(name)),
        converted_name(name).subrange(stem_len(name) + 1, converted_name(name).len() as int)
            == target_extension(),
        converted_name(name).len() == stem_len(name) + 4,
        (forall|i: int| 0 <= i < name.len() ==> name[i] != SEPARATOR) ==> (forall|i: int|
            0 <= i < converted_name(name).len() ==> converted_name(name)[i] != SEPARATOR),
{
    reveal_strlit("m4a");
    lemma_last_index_of(name, '.');
    let n = stem_len(name);
    let stem = name.subrange(0, n);
    let out = converted_name(name);
    assert(out.len() == n + 4);
    assert(out[n] == '.');
    assert(out[n + 1] == 'm' && out[n + 2] == '4' && out[n + 3] == 'a');
    lemma_last_index_is(out, '.', n);
    assert(out.subrange(0, n) =~= stem);
    assert(out.subrange(n + 1, out.len() as int) =~= target_extension());
    assert forall|i: int| 0 <= i < n implies out[i] == name[i] by {}
}

/// Replacing the extension changes nothing else: the result names a file in
/// the same directory, with the same stem and the target extension.
pub proof fn lemma_with_target_extension(path: Seq<char>)
    requires
        names_file(path),
    ensures
        names_file(with_target_extension(path)),
        directory(with_target_extension(path)) == directory(path),
        file_name(with_target_extension(path)) == converted_name(file_name(path)),
        file_stem(with_target_extension(path)) == file_stem(path),
        extension(with_target_extension(path)) == Some(target_extension()),
        with_target_extension(path).len() > 0,
        with_target_extension(path)[0] == path[0],
{
    let name = file_name(path);
    let out = with_target_extension(path);
    lemma_directory_and_name(path);
    lemma_converted_name(name);
    lemma_name_of_concat(directory(path), converted_name(name));
    assert(converted_name(name) != seq!['.']);
    assert(converted_name(name) != seq!['.', '.']);
    assert(out[0] == path[0]) by {
        if directory(path).len() > 0 {
            assert(out[0] == directory(path)[0]);
        } else {
            assert(out[0] == converted_name(name)[0]);
            assert(converted_name(name)[0] == converted_name(name).subrange(0, stem_len(name))[0]);
        }
    }
}

/// The file name of a path under a root: where `rel` names a file,
/// `joined(root, rel)` names the same file.
pub proof fn lemma_name_of_joined(root: Seq<char>, rel: Seq<char>)
    requires
        names_file(rel),
    ensures
        file_name(joined(root, rel)) == file_name(rel),
        names_file(joined(root, rel)),
{
    lemma_directory_and_name(rel);
    let name = file_name(rel);
    if rel[0] == SEPARATOR {
    } else {
        let front = if root.len() == 0 || root.last() == SEPARATOR {
            root
        } else {
            root + seq![SEPARATOR]
        };
        let dir = front + directory(rel);
        assert(joined(root, rel) =~= dir + name);
        lemma_name_of_concat(dir, name);
    }
}

/// What is left of a path under a root is the end of the path and starts
/// with no separator.
pub proof fn lemma_relative_to(path: Seq<char>, root: Seq<char>)
    requires
        is_under(path, root),
    ensures
        ({
            let rel = relative_to(path, root)->0;
            &&& rel.len() <= path.len() - root.len()
            &&& rel == path.skip(path.len() - rel.len())
            &&& rel.len() == 0 || rel[0] != SEPARATOR
        }),
{
    let rest = path.skip(root.len() as int);
    lemma_leading_separators(rest);
    let skipped = leading_separators(rest) as int;
    let rel = rest.skip(skipped);
    assert(rel =~= path.skip(root.len() + skipped));
}

/// The separators at the start of a text are counted to the first character
/// that is none.
pub proof fn lemma_leading_separators(s: Seq<char>)
    ensures
        leading_separators(s) <= s.len(),
        forall|i: int| 0 <= i < leading_separators(s) ==> s[i] == SEPARATOR,
        leading_separators(s) < s.len() ==> s[leading_separators(s) as int] != SEPARATOR,
    decreases s.len(),
{
    if s.len() > 0 && s[0] == SEPARATOR {
        let rest = s.drop_first();
        lemma_leading_separators(rest);
        assert forall|i: int| 0 <= i < leading_separators(s) implies s[i] == SEPARATOR by {
            if i > 0 {
                assert(s[i] == rest[i - 1]);
            }
        }
        if leading_separators(s) < s.len() {
            assert(s[leading_separators(s) as int] == rest[leading_separators(rest) as int]);
        }
    }
}

/// `n` separators and then a character that is none: `n` leading separators.
pub proof fn lemma_leading_separators_is(s: Seq<char>, n: int)
    requires
        0 <= n <= s.len(),
        forall|i: int| 0 <= i < n ==> s[i] == SEPARATOR,
        n < s.len() ==> s[n] != SEPARATOR,
    ensures
        leading_separators(s) == n,
    decreases n,
{
    if n > 0 {
        let rest = s.drop_first();
        assert forall|i: int| 0 <= i < n - 1 implies rest[i] == SEPARATOR by {
            assert(rest[i] == s[i + 1]);
        }
        lemma_leading_separators_is(rest, n - 1);
    }
}

/// What was put under a root is found there again: a relative path joined to
/// `root` lies under `root`, and what it is under `root` is that path.
pub proof fn lemma_joined_lies_under(root: Seq<char>, rel: Seq<char>)
    requires
        rel.len() == 0 || rel[0] != SEPARATOR,
    ensures
        is_under(joined(root, rel), root),
        relative_to(joined(root, rel), root) == Some(rel),
{
    let path = joined(root, rel);
    assert(path.subrange(0, root.len() as int) =~= root);
    let rest = path.skip(root.len() as int);
    if root.len() == 0 || root.last() == SEPARATOR {
        assert(rest =~= rel);
        lemma_leading_separators_is(rest, 0);
        assert(rest.skip(0) =~= rel);
    } else {
        assert(rest =~= seq![SEPARATOR] + rel);
        lemma_leading_separators_is(rest, 1);
        assert(rest.skip(1) =~= rel);
    }
}

/// The destination of a source keeps its place and its stem and has the
/// target extension. It names a file whose extension is `m4a` and whose stem
/// is that of the source. Without an output root it lies in the directory of
/// the source. With an output root it lies under that root, and for a source
/// under the input root it is there what the source is under the input root,
/// directories and stem alike, but for the extension.
pub proof fn law_destination_keeps_place_and_stem(
    file: Seq<char>,
    in_root: Seq<char>,
    out_root: Option<Seq<char>>,
)
    requires
        mapped_destination(file, in_root, out_root) is Some,
    ensures
        ({
            let dest = mapped_destination(file, in_root, out_root)->0;
            &&& names_file(dest)
            &&& extension(dest) == Some(target_extension())
            &&& file_stem(dest) == file_stem(file)
            &&& out_root is None ==> directory(dest) == directory(file)
            &&& out_root is Some && is_below(file, in_root) ==> {
                let rel = relative_to(file, in_root)->0;
                &&& is_under(dest, out_root->0)
                &&& relative_to(dest, out_root->0) == Some(with_target_extension(rel))
                &&& directory(with_target_extension(rel)) == directory(rel)
                &&& file_stem(with_target_extension(rel)) == file_stem(rel)
            }
        }),
{
    match out_root {
        Some(dir) => {
            lemma_kept_part(file, in_root);
            let rel = kept_part(file, in_root);
            let mapped = with_target_extension(rel);
            lemma_with_target_extension(rel);
            lemma_name_of_joined(dir, mapped);
            if is_below(file, in_root) {
                lemma_joined_lies_under(dir, mapped);
            }
        },
        None => {
            lemma_with_target_extension(file);
        },
    }
}

/// The kept part of a path has the file name of the path, and where the path
/// lies below the root it starts with no separator.
pub proof fn lemma_kept_part(file: Seq<char>, in_root: Seq<char>)
    ensures
        file_name(kept_part(file, in_root)) == file_name(file),
        names_file(kept_part(file, in_root)) == names_file(file),
        is_below(file, in_root) ==> kept_part(file, in_root)[0] != SEPARATOR,
{
    if is_below(file, in_root) {
        let rel = relative_to(file, in_root)->0;
        let k = file.len() - rel.len();
        lemma_relative_to(file, in_root);
        lemma_directory_and_name(file);
        lemma_last_index_of(file, SEPARATOR);
        // `rel` starts where a directory of `file` ends, so no later than the name.
        assert(k <= name_start(file)) by {
            if k > 0 {
                lemma_relative_start(file, in_root);
            }
        }
        let name = file_name(file);
        let dir = file.subrange(k, name_start(file));
        assert(rel =~= dir + name);
        assert(dir.len() == 0 || dir.last() == SEPARATOR) by {
            if dir.len() > 0 {
                assert(dir.last() == file[name_start(file) - 1]);
            }
        }
        lemma_name_of_concat(dir, name);
    }
}

/// What is left of a path under a root starts at the start of the path or
/// after a separator.
pub proof fn lemma_relative_start(path: Seq<char>, root: Seq<char>)
    requires
        is_under(path, root),
        relative_to(path, root)->0.len() > 0,
    ensures
        ({
            let k = path.len() - relative_to(path, root)->0.len();
            k == 0 || path[k - 1] == SEPARATOR
        }),
{
    let rest = path.skip(root.len() as int);
    lemma_leading_separators(rest);
    let skipped = leading_separators(rest) as int;
    let k = root.len() + skipped;
    if skipped > 0 {
        assert(rest[skipped - 1] == SEPARATOR);
        assert(path[k - 1] == rest[skipped - 1]);
    } else if root.len() > 0 {
        if root.last() == SEPARATOR {
            assert(path.subrange(0, root.len() as int)[root.len() - 1] == root.last());
        } else {
            assert(rest[0] == path[root.len() as int]);
        }
    }
}

/// The destination of a single file keeps its stem and has the target
/// extension; it lies beside the file, or straight in the output root.
pub proof fn law_default_destination(file: Seq<char>, out_root: Option<Seq<char>>)
    requires
        names_file(file),
    ensures
        ({
            let dest = default_destination(file, out_root)->0;
            &&& default_destination(file, out_root) is Some
            &&& names_file(dest)
            &&& extension(dest) == Some(target_extension())
            &&& file_stem(dest) == file_stem(file)
            &&& out_root is None ==> directory(dest) == directory(file)
            &&& out_root is Some ==> relative_to(dest, out_root->0) == Some(
                converted_name(file_name(file)),
            )
        }),
{
    lemma_with_target_extension(file);
    match out_root {
        Some(dir) => {
            let name = file_name(file);
            let converted = converted_name(name);
            lemma_directory_and_name(file);
            lemma_converted_name(name);
            lemma_name_of_concat(Seq::<char>::empty(), converted);
            assert(Seq::<char>::empty() + converted =~= converted);
            assert(converted != seq!['.']);
            assert(converted != seq!['.', '.']);
            lemma_name_of_joined(dir, converted);
            lemma_joined_lies_under(dir, converted);
        },
        None => {},
    }
}

/// An optional text as a mathematical value.
pub open spec fn text_of(text: Option<&str>) -> Option<Seq<char>> {
    match text {
        Some(t) => Some(t@),
        None => None,
    }
}

/// The place of the last `c` in `chars`.
pub fn find_last(chars: &[char], c: char) -> (at: Option<usize>)
    ensures
        match at {
            Some(k) => k == last_index_of(chars@, c),
            None => last_index_of(chars@, c) == -1,
        },
{
    let mut at: Option<usize> = None;
    let mut i: usize = 0;
    while i < chars.len()
        invariant
            i <= chars@.len(),
            match at {
                Some(k) => k == last_index_of(chars@.take(i as int), c),
                None => last_index_of(chars@.take(i as int), c) == -1,
            },
        decreases chars@.len() - i,
    {
        assert(chars@.take(i + 1).drop_last() == chars@.take(i as int));
        if chars[i] == c {
            at = Some(i);
        }
        i = i + 1;
    }
    assert(chars@.take(i as int) == chars@);
    at
}

/// Where the file name starts in `chars`.
fn name_start_of(chars: &[char]) -> (start: usize)
    ensures
        start == name_start(chars@),
        start <= chars@.len(),
{
    proof {
        lemma_last_index_of(chars@, SEPARATOR);
    }
    let n = chars.len();
    match find_last(chars, SEPARATOR) {
        Some(k) => k + 1,
        None => 0,
    }
}

/// Whether `name`, the file name of a path, is the name of a file.
fn is_name_of_file(name: &[char]) -> (named: bool)
    ensures
        named == (name@.len() > 0 && name@ != seq!['.'] && name@ != seq!['.', '.']),
{
    let n = name.len();
    if n == 0 {
        false
    } else if n == 1 {
        assert(name@ == seq!['.'] <==> name@[0] == '.') by {
            if name@[0] == '.' {
                assert(name@ =~= seq!['.']);
            }
        }
        name[0] != '.'
    } else if n == 2 {
        assert(name@ == seq!['.', '.'] <==> name@[0] == '.' && name@[1] == '.') by {
            if name@[0] == '.' && name@[1] == '.' {
                assert(name@ =~= seq!['.', '.']);
            }
        }
        !(name[0] == '.' && name[1] == '.')
    } else {
        true
    }
}

/// The length of the stem of `name`.
fn stem_len_of(name: &[char]) -> (len: usize)
    ensures
        len == stem_len(name@),
        len <= name@.len(),
{
    proof {
        lemma_last_index_of(name@, '.');
    }
    match find_last(name, '.') {
        Some(dot) => if dot == 0 {
            name.len()
        } else {
            dot
        },
        None => name.len(),
    }
}

/// The file name of `path`: what follows its last separator.
pub fn file_name_of(path: &str) -> (name: &str)
    ensures
        name@ == file_name(path@),
{
    let chars = to_chars(path);
    let start = name_start_of(chars.as_slice());
    path.substring_char(start, chars.len())
}

/// Whether `path` names a file of the source format.
pub fn has_source_extension(path: &str) -> (matches: bool)
    ensures
        matches == is_source_file(path@),
{
    let chars = to_chars(path);
    let start = name_start_of(chars.as_slice());
    let name = slice_subrange(chars.as_slice(), start, chars.len());
    if !is_name_of_file(name) {
        return false;
    }
    proof {
        lemma_last_index_of(name@, '.');
    }
    match find_last(name, '.') {
        Some(dot) => {
            if dot == 0 {
                false
            } else {
                let ext = slice_subrange(name, dot + 1, name.len());
                let flac = to_chars("flac");
                eq_ignore_ascii_case(ext, flac.as_slice())
            }
        },
        None => false,
    }
}

/// `rel` under `root`.
pub fn join(root: &str, rel: &str) -> (path: String)
    ensures
        path@ == joined(root@, rel@),
{
    let root_len = root.unicode_len();
    if rel.unicode_len() > 0 && rel.get_char(0) == SEPARATOR {
        String::from_str(rel)
    } else if root_len == 0 || root.get_char(root_len - 1) == SEPARATOR {
        let mut path = String::from_str(root);
        path.append(rel);
        path
    } else {
        proof {
            reveal_strlit("/");
            assert("/"@ =~= seq![SEPARATOR]);
        }
        let mut path = String::from_str(root);
        path.append("/");
        path.append(rel);
        path
    }
}

/// What `path` is under `root`, if it lies under `root`.
pub fn strip_prefix<'a>(path: &'a str, root: &str) -> (rel: Option<&'a str>)
    ensures
        text_of(rel) == relative_to(path@, root@),
{
    let p = to_chars(path);
    let r = to_chars(root);
    let n = p.len();
    let m = r.len();
    if m > n {
        return None;
    }
    let mut i: usize = 0;
    while i < m
        invariant
            p@ == path@,
            r@ == root@,
            m <= n,
            n == p@.len(),
            m == r@.len(),
            i <= m,
            p@.subrange(0, i as int) == r@.subrange(0, i as int),
        decreases m - i,
    {
        if p[i] != r[i] {
            assert(p@.subrange(0, m as int)[i as int] != r@[i as int]);
            return None;
        }
        assert(p@.subrange(0, i + 1) == p@.subrange(0, i as int).push(p@[i as int]));
        assert(r@.subrange(0, i + 1) == r@.subrange(0, i as int).push(r@[i as int]));
        i = i + 1;
    }
    assert(r@.subrange(0, m as int) == r@);
    if !(m == 0 || r[m - 1] == SEPARATOR || m == n || p[m] == SEPARATOR) {
        return None;
    }
    let ghost rest = p@.skip(m as int);
    let mut k: usize = m;
    while k < n && p[k] == SEPARATOR
        invariant
            m <= k <= n,
            n == p@.len(),
            rest == p@.skip(m as int),
            leading_separators(rest) == (k - m) + leading_separators(p@.skip(k as int)),
        decreases n - k,
    {
        assert(p@.skip(k as int).drop_first() == p@.skip(k + 1));
        k = k + 1;
    }
    assert(rest.skip(k - m) == p@.skip(k as int));
    assert(p@.skip(k as int) == p@.subrange(k as int, n as int));
    Some(path.substring_char(k, n))
}

/// Where the converted file of the single file `file` goes: beside it, or
/// straight into `out_root` where one is given. Fails with `InvalidPath`
/// exactly where `file` names no file.
pub fn default_out_path(file: &str, out_root: Option<&str>) -> (result: Result<String, TaskError>)
    ensures
        match result {
            Ok(path) => default_destination(file@, text_of(out_root)) == Some(path@),
            Err(e) => e == TaskError::InvalidPath && default_destination(file@, text_of(out_root))
                is None,
        },
{
    let chars = to_chars(file);
    let n = chars.len();
    let start = name_start_of(chars.as_slice());
    let name = slice_subrange(chars.as_slice(), start, n);
    if !is_name_of_file(name) {
        return Err(TaskError::InvalidPath);
    }
    let stem_end = start + stem_len_of(name);
    proof {
        reveal_strlit(".m4a");
        reveal_strlit("m4a");
        assert(".m4a"@ =~= seq!['.'] + target_extension());
    }
    match out_root {
        Some(dir) => {
            let mut converted = String::from_str(file.substring_char(start, stem_end));
            converted.append(".m4a");
            assert(converted@ =~= converted_name(file_name(file@)));
            Ok(join(dir, converted.as_str()))
        },
        None => {
            let mut path = String::from_str(file.substring_char(0, stem_end));
            path.append(".m4a");
            assert(path@ =~= with_target_extension(file@));
            Ok(path)
        },
    }
}

/// Where the converted file of `file`, found under `in_root`, goes: beside
/// `file`, or where an output root is given, under it at the place that
/// `file` has under `in_root`. Fails with `InvalidPath` exactly where `file`
/// names no file.
pub fn map_to_out(file: &str, in_root: &str, out_root: Option<&str>) -> (result: Result<
    String,
    TaskError,
>)
    ensures
        match result {
            Ok(path) => mapped_destination(file@, in_root@, text_of(out_root)) == Some(path@),
            Err(e) => e == TaskError::InvalidPath && mapped_destination(
                file@,
                in_root@,
                text_of(out_root),
            ) is None,
        },
{
    match out_root {
        Some(dir) => {
            let rel = match strip_prefix(file, in_root) {
                Some(rel) => if rel.unicode_len() > 0 {
                    rel
                } else {
                    file
                },
                None => file,
            };
            proof {
                lemma_kept_part(file@, in_root@);
            }
            match default_out_path(rel, None) {
                Ok(mapped) => Ok(join(dir, mapped.as_str())),
                Err(e) => Err(e),
            }
        },
        None => default_out_path(file, None),
    }
}

} // verus!
