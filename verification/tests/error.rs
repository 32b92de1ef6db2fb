use flac2alac::error::{RunError, TaskError};

#[test]
fn run_errors_have_their_messages() {
    assert_eq!(RunError::ToolUnavailable.message(), "ffmpeg was not found in the PATH");
    assert_eq!(RunError::NoInputFiles.message(), "no .flac file found");
}

#[test]
fn task_errors_have_their_reasons() {
    assert_eq!(TaskError::TranscodeFailure.reason(), "ffmpeg failed to convert the file");
    assert_eq!(TaskError::DecodeFailure.reason(), "ffmpeg failed to decode the audio");
    assert_eq!(
        TaskError::VerificationMismatch.reason(),
        "the decoded audio differs from the source"
    );
    assert_eq!(TaskError::InvalidPath.reason(), "invalid file name");
}
