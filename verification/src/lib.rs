//! Batch conversion of a tree of FLAC files to ALAC (`.m4a`), as a library of
//! decisions: which files to convert and where to, what to do about an output
//! that is already there, what each step of a task leads to, how the decoded
//! audio of two files is compared, and how the outcomes add up.
//!
//! The library touches neither the disk nor the media tool. A front end does
//! that, hands in what it found as plain values, and is told what to do next.

pub mod command;
pub mod digest;
pub mod discover;
pub mod error;
pub mod overwrite;
pub mod path;
pub mod run;
pub mod status;
pub mod task;
pub mod text;
