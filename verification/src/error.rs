//! What can go wrong: for a whole run, and for one task.

use vstd::prelude::*;

verus! {

/// A failure that ends the run before any task is attempted.
#[derive(Clone, Copy, Debug, PartialEq, Eq, Structural)]
pub enum RunError {
    /// The media tool did not answer the availability probe.
    ToolUnavailable,
    /// Nothing under the input matched the source format.
    NoInputFiles,
}

/// A failure of one task. The other tasks of the run go on.
#[derive(Clone, Copy, Debug, PartialEq, Eq, Structural)]
pub enum TaskError {
    /// The transcoder could not be launched or exited with a failure.
    TranscodeFailure,
    /// A decode for verification exited with a failure.
    DecodeFailure,
    /// Both files decoded, to different audio.
    VerificationMismatch,
    /// The path names no file.
    InvalidPath,
}

impl RunError {
    /// The text of `message`.
    pub open spec fn message_text(self) -> Seq<char> {
        match self {
            RunError::ToolUnavailable => "ffmpeg was not found in the PATH"@,
            RunError::NoInputFiles => "no .flac file found"@,
        }
    }

    /// A sentence for the operator.
    pub fn message(&self) -> (text: &'static str)
        ensures
            text@ == self.message_text(),
    {
        match self {
            RunError::ToolUnavailable => "ffmpeg was not found in the PATH",
            RunError::NoInputFiles => "no .flac file found",
        }
    }
}

impl TaskError {
    /// The text of `reason`.
    pub open spec fn reason_text(self) -> Seq<char> {
        match self {
            TaskError::TranscodeFailure => "ffmpeg failed to convert the file"@,
            TaskError::DecodeFailure => "ffmpeg failed to decode the audio"@,
            TaskError::VerificationMismatch => "the decoded audio differs from the source"@,
            TaskError::InvalidPath => "invalid file name"@,
        }
    }

    /// The reason as it is shown beside the path of the failed source.
    pub fn reason(&self) -> (text: &'static str)
        ensures
            text@ == self.reason_text(),
    {
        match self {
            TaskError::TranscodeFailure => "ffmpeg failed to convert the file",
            TaskError::DecodeFailure => "ffmpeg failed to decode the audio",
            TaskError::VerificationMismatch => "the decoded audio differs from the source",
            TaskError::InvalidPath => "invalid file name",
        }
    }
}

} // verus!
