//! Which files are converted, and where each one goes.
//!
//! The front end looks at the input path and, where it is a directory, walks
//! it. Here its findings become the list of tasks: one for each regular file
//! of the source format, in the order found, each with its destination.

use vstd::prelude::*;
use vstd::pervasive::unreached;
use crate::error::RunError;
use crate::path::{
    default_destination, default_out_path, has_source_extension, is_below, is_source_file,
    is_under, law_default_destination, law_destination_keeps_place_and_stem, extension,
    file_stem, map_to_out, mapped_destination, names_file, relative_to, target_extension,
    text_of, with_target_extension,
};

verus! {

/// One conversion: the file to read and the file to write.
#[derive(Debug)]
pub struct ConversionTask {
    pub source: String,
    pub destination: String,
}

/// A `ConversionTask` as a mathematical value.
pub struct ConversionTaskView {
    pub source: Seq<char>,
    pub destination: Seq<char>,
}

impl DeepView for ConversionTask {
    type V = ConversionTaskView;

    open spec fn deep_view(&self) -> ConversionTaskView {
        ConversionTaskView { source: self.source@, destination: self.destination@ }
    }
}

/// Something that the walk of a directory came upon.
#[derive(Debug)]
pub struct FoundEntry {
    /// Its path, starting with the directory that was walked.
    pub path: String,
    /// Whether it is a regular file, links followed.
    pub is_file: bool,
}

/// A `FoundEntry` as a mathematical value.
pub struct FoundEntryView {
    pub path: Seq<char>,
    pub is_file: bool,
}

impl DeepView for FoundEntry {
    type V = FoundEntryView;

    open spec fn deep_view(&self) -> FoundEntryView {
        FoundEntryView { path: self.path@, is_file: self.is_file }
    }
}

/// What the front end found at the input path.
#[derive(Debug)]
pub enum Found {
    /// A regular file.
    File,
    /// A directory, and all that lies in it, at any depth.
    Directory(Vec<FoundEntry>),
    /// Neither.
    Other,
}

/// A `Found` as a mathematical value.
pub enum FoundView {
    File,
    Directory(Seq<FoundEntryView>),
    Other,
}

impl DeepView for Found {
    type V = FoundView;

    open spec fn deep_view(&self) -> FoundView {
        match *self {
            Found::File => FoundView::File,
            Found::Directory(entries) => FoundView::Directory(entries.deep_view()),
            Found::Other => FoundView::Other,
        }
    }
}

/// Whether an entry is converted: it is a regular file of the source format.
pub open spec fn is_convertible(entry: FoundEntryView) -> bool {
    entry.is_file && is_source_file(entry.path)
}

/// The task for a source found under `in_root`.
pub open spec fn task_for(source: Seq<char>, in_root: Seq<char>, out_root: Option<Seq<char>>) -> ConversionTaskView {
    ConversionTaskView {
        source,
        destination: mapped_destination(source, in_root, out_root)->0,
    }
}

/// The tasks for the entries of a directory: one for each entry that is
/// converted, in the order of the entries.
pub open spec fn tasks_of(
    entries: Seq<FoundEntryView>,
    in_root: Seq<char>,
    out_root: Option<Seq<char>>,
) -> Seq<ConversionTaskView>
    decreases entries.len(),
{
    if entries.len() == 0 {
        Seq::<ConversionTaskView>::empty()
    } else {
        let before = tasks_of(entries.drop_last(), in_root, out_root);
        if is_convertible(entries.last()) {
            before.push(task_for(entries.last().path, in_root, out_root))
        } else {
            before
        }
    }
}

/// The number of entries that are converted.
pub open spec fn convertible_count(entries: Seq<FoundEntryView>) -> nat
    decreases entries.len(),
{
    if entries.len() == 0 {
        0
    } else {
        convertible_count(entries.drop_last()) + if is_convertible(entries.last()) {
            1nat
        } else {
            0nat
        }
    }
}

/// The tasks for an input: for a file of the source format the one task that
/// converts it, for a directory the tasks of its entries, else none.
pub open spec fn tasks_found(input: Seq<char>, found: FoundView, out_root: Option<Seq<char>>) -> Seq<
    ConversionTaskView,
> {
    match found {
        FoundView::File => if is_source_file(input) {
            seq![
                ConversionTaskView {
                    source: input,
                    destination: default_destination(input, out_root)->0,
                },
            ]
        } else {
            Seq::<ConversionTaskView>::empty()
        },
        FoundView::Directory(entries) => tasks_of(entries, input, out_root),
        FoundView::Other => Seq::<ConversionTaskView>::empty(),
    }
}

/// There are as many tasks as entries that are converted, so never more than
/// entries.
pub proof fn law_one_task_for_each_source(
    entries: Seq<FoundEntryView>,
    in_root: Seq<char>,
    out_root: Option<Seq<char>>,
)
    ensures
        tasks_of(entries, in_root, out_root).len() == convertible_count(entries),
        convertible_count(entries) <= entries.len(),
    decreases entries.len(),
{
    if entries.len() > 0 {
        law_one_task_for_each_source(entries.drop_last(), in_root, out_root);
    }
}

/// Each task of a directory comes from an entry that is converted, and the
/// tasks keep the order of their entries: the task at `i` has an entry at
/// some place `at`, and the tasks before it are those of the entries before
/// `at`.
pub proof fn lemma_task_has_entry(
    entries: Seq<FoundEntryView>,
    in_root: Seq<char>,
    out_root: Option<Seq<char>>,
    i: int,
) -> (at: int)
    requires
        0 <= i < tasks_of(entries, in_root, out_root).len(),
    ensures
        0 <= at < entries.len(),
        is_convertible(entries[at]),
        tasks_of(entries, in_root, out_root)[i] == task_for(entries[at].path, in_root, out_root),
        tasks_of(entries.take(at), in_root, out_root).len() == i,
    decreases entries.len(),
{
    let front = entries.drop_last();
    let before = tasks_of(front, in_root, out_root);
    if i < before.len() {
        let at = lemma_task_has_entry(front, in_root, out_root, i);
        assert(front.take(at) == entries.take(at));
        at
    } else {
        assert(entries.take(entries.len() - 1) == front);
        entries.len() - 1
    }
}

/// Every task found has a source of the source format and a destination
/// that keeps the place and the stem of the source and has the target
/// extension: without an output root the destination lies in the directory
/// of the source; with one, the destination of a source below the input
/// directory is under the output root what the source is under the input
/// directory, but for the extension.
pub proof fn law_tasks_keep_place_and_stem(
    input: Seq<char>,
    found: FoundView,
    out_root: Option<Seq<char>>,
    i: int,
)
    requires
        0 <= i < tasks_found(input, found, out_root).len(),
    ensures
        ({
            let task = tasks_found(input, found, out_root)[i];
            &&& is_source_file(task.source)
            &&& names_file(task.destination)
            &&& extension(task.destination) == Some(target_extension())
            &&& file_stem(task.destination) == file_stem(task.source)
            &&& out_root is None ==> crate::path::directory(task.destination)
                == crate::path::directory(task.source)
            &&& found is Directory && out_root is Some && is_below(task.source, input) ==> {
                let rel = relative_to(task.source, input)->0;
                &&& is_under(task.destination, out_root->0)
                &&& relative_to(task.destination, out_root->0) == Some(with_target_extension(rel))
                &&& crate::path::directory(with_target_extension(rel)) == crate::path::directory(
                    rel,
                )
            }
        }),
{
    match found {
        FoundView::File => {
            law_default_destination(input, out_root);
        },
        FoundView::Directory(entries) => {
            let at = lemma_task_has_entry(entries, input, out_root, i);
            law_destination_keeps_place_and_stem(entries[at].path, input, out_root);
        },
        FoundView::Other => {},
    }
}

/// The tasks for the entries of a directory.
fn directory_tasks(input: &str, entries: &Vec<FoundEntry>, out_root: Option<&str>) -> (tasks: Vec<
    ConversionTask,
>)
    ensures
        tasks.deep_view() == tasks_of(entries.deep_view(), input@, text_of(out_root)),
{
    let mut tasks: Vec<ConversionTask> = Vec::new();
    let mut i: usize = 0;
    while i < entries.len()
        invariant
            i <= entries.len(),
            tasks.deep_view() == tasks_of(
                entries.deep_view().take(i as int),
                input@,
                text_of(out_root),
            ),
        decreases entries.len() - i,
    {
        let entry = &entries[i];
        let ghost before = tasks.deep_view();
        proof {
            let all = entries.deep_view();
            assert(all.take(i + 1).drop_last() == all.take(i as int));
            assert(all.take(i + 1).last() == entry.deep_view());
        }
        if entry.is_file && has_source_extension(entry.path.as_str()) {
            match map_to_out(entry.path.as_str(), input, out_root) {
                Ok(destination) => {
                    let task = ConversionTask { source: entry.path.clone(), destination };
                    tasks.push(task);
                    assert(tasks.deep_view() == before.push(task.deep_view()));
                },
                Err(_) => {
                    unreached::<()>();
                },
            }
        }
        i = i + 1;
    }
    assert(entries.deep_view().take(i as int) == entries.deep_view());
    tasks
}

/// The tasks for an input, in the order found: for a regular file of the
/// source format the one task that converts it, for a directory one task for
/// each regular file of the source format in it. Other files and entries
/// are passed over.
pub fn collect_tasks(input: &str, found: &Found, out_root: Option<&str>) -> (tasks: Vec<
    ConversionTask,
>)
    ensures
        tasks.deep_view() == tasks_found(input@, found.deep_view(), text_of(out_root)),
{
    match found {
        Found::File => {
            let mut tasks: Vec<ConversionTask> = Vec::new();
            if has_source_extension(input) {
                match default_out_path(input, out_root) {
                    Ok(destination) => {
                        let task = ConversionTask { source: String::from_str(input), destination };
                        tasks.push(task);
                        assert(tasks.deep_view() == seq![task.deep_view()]);
                    },
                    Err(_) => {
                        unreached::<()>();
                    },
                }
            } else {
                assert(tasks.deep_view() == Seq::<ConversionTaskView>::empty());
            }
            tasks
        },
        Found::Directory(entries) => directory_tasks(input, entries, out_root),
        Found::Other => {
            let tasks: Vec<ConversionTask> = Vec::new();
            assert(tasks.deep_view() == Seq::<ConversionTaskView>::empty());
            tasks
        },
    }
}

/// The tasks of a run, or `NoInputFiles` exactly where there are none.
pub fn discover(input: &str, found: &Found, out_root: Option<&str>) -> (result: Result<
    Vec<ConversionTask>,
    RunError,
>)
    ensures
        match result {
            Ok(tasks) => tasks.deep_view() == tasks_found(
                input@,
                found.deep_view(),
                text_of(out_root),
            ) && tasks.len() > 0,
            Err(e) => e == RunError::NoInputFiles && tasks_found(
                input@,
                found.deep_view(),
                text_of(out_root),
            ).len() == 0,
        },
{
    let tasks = collect_tasks(input, found, out_root);
    if tasks.len() == 0 {
        Err(RunError::NoInputFiles)
    } else {
        Ok(tasks)
    }
}

} // verus!
