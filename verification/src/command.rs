//! How the media tool is called.
//!
//! The tool is `ffmpeg`. The front end runs it; the arguments of each call
//! and the meaning of how a call ended are fixed here.

use vstd::prelude::*;
use crate::error::RunError;

verus! {

/// How a call of the tool ended.
#[derive(Clone, Copy, Debug, PartialEq, Eq, Structural)]
pub enum ToolRun {
    /// The tool could not be started.
    NotLaunched,
    /// It ran and exited with a failure.
    Failed,
    /// It ran and exited with success.
    Succeeded,
}

/// The name of the program that is run.
pub open spec fn tool_name() -> Seq<char> {
    "ffmpeg"@
}

/// The arguments of the call that shows whether the tool is there.
pub open spec fn probe_arguments() -> Seq<Seq<char>> {
    seq!["-version"@]
}

/// The arguments of a conversion: read `input`, take its first audio stream
/// and, if it has one, its picture; encode the audio as ALAC, copy the
/// picture as it is and mark it as the cover; copy the tags; write `output`,
/// over what may be there.
pub open spec fn transcode_arguments(input: Seq<char>, output: Seq<char>) -> Seq<Seq<char>> {
    seq![
        "-hide_banner"@,
        "-v"@,
        "warning"@,
        "-y"@,
        "-i"@,
        input,
        "-map"@,
        "0:a:0"@,
        "-map"@,
        "0:v?"@,
        "-c:a"@,
        "alac"@,
        "-c:v"@,
        "copy"@,
        "-disposition:v"@,
        "attached_pic"@,
        "-map_metadata"@,
        "0"@,
        output,
    ]
}

/// The arguments of a decode for verification: read `input` and write its
/// audio to the standard output as raw samples of 32 bits, signed, low byte
/// first, which holds sources of 16 and of 24 bits without loss. The
/// channels stay as they are.
pub open spec fn decode_arguments(input: Seq<char>) -> Seq<Seq<char>> {
    seq![
        "-hide_banner"@,
        "-v"@,
        "error"@,
        "-i"@,
        input,
        "-f"@,
        "s32le"@,
        "-acodec"@,
        "pcm_s32le"@,
        "pipe:1"@,
    ]
}

/// Appends `text` to `arguments`.
fn push_text(arguments: &mut Vec<String>, text: &str)
    ensures
        final(arguments).deep_view() == old(arguments).deep_view().push(text@),
{
    let ghost before = arguments.deep_view();
    arguments.push(String::from_str(text));
    assert(arguments.deep_view() =~= before.push(text@));
}

/// The name of the program that is run.
pub fn tool() -> (name: &'static str)
    ensures
        name@ == tool_name(),
{
    "ffmpeg"
}

/// The arguments of the call that shows whether the tool is there.
pub fn probe_args() -> (arguments: Vec<String>)
    ensures
        arguments.deep_view() == probe_arguments(),
{
    let mut arguments: Vec<String> = Vec::new();
    assert(arguments.deep_view() =~= Seq::<Seq<char>>::empty());
    push_text(&mut arguments, "-version");
    arguments
}

/// The arguments of the conversion of `input` to `output`.
pub fn transcode_args(input: &str, output: &str) -> (arguments: Vec<String>)
    ensures
        arguments.deep_view() == transcode_arguments(input@, output@),
{
    let mut arguments: Vec<String> = Vec::new();
    assert(arguments.deep_view() =~= Seq::<Seq<char>>::empty());
    push_text(&mut arguments, "-hide_banner");
    push_text(&mut arguments, "-v");
    push_text(&mut arguments, "warning");
    push_text(&mut arguments, "-y");
    push_text(&mut arguments, "-i");
    push_text(&mut arguments, input);
    push_text(&mut arguments, "-map");
    push_text(&mut arguments, "0:a:0");
    push_text(&mut arguments, "-map");
    push_text(&mut arguments, "0:v?");
    push_text(&mut arguments, "-c:a");
    push_text(&mut arguments, "alac");
    push_text(&mut arguments, "-c:v");
    push_text(&mut arguments, "copy");
    push_text(&mut arguments, "-disposition:v");
    push_text(&mut arguments, "attached_pic");
    push_text(&mut arguments, "-map_metadata");
    push_text(&mut arguments, "0");
    push_text(&mut arguments, output);
    assert(arguments.deep_view() =~= transcode_arguments(input@, output@));
    arguments
}

/// The arguments of the decode of `input` for verification.
pub fn decode_args(input: &str) -> (arguments: Vec<String>)
    ensures
        arguments.deep_view() == decode_arguments(input@),
{
    let mut arguments: Vec<String> = Vec::new();
    assert(arguments.deep_view() =~= Seq::<Seq<char>>::empty());
    push_text(&mut arguments, "-hide_banner");
    push_text(&mut arguments, "-v");
    push_text(&mut arguments, "error");
    push_text(&mut arguments, "-i");
    push_text(&mut arguments, input);
    push_text(&mut arguments, "-f");
    push_text(&mut arguments, "s32le");
    push_text(&mut arguments, "-acodec");
    push_text(&mut arguments, "pcm_s32le");
    push_text(&mut arguments, "pipe:1");
    assert(arguments.deep_view() =~= decode_arguments(input@));
    arguments
}

impl ToolRun {
    /// Whether the call did what it was made for: the tool ran and exited
    /// with success.
    pub fn succeeded(self) -> (ok: bool)
        ensures
            ok == (self == ToolRun::Succeeded),
    {
        match self {
            ToolRun::Succeeded => true,
            _ => false,
        }
    }
}

/// Whether the tool is there, by how the probe ended: `ToolUnavailable`
/// unless it ran and exited with success.
pub fn ensure_ffmpeg_available(probe: ToolRun) -> (result: Result<(), RunError>)
    ensures
        result == if probe == ToolRun::Succeeded {
            Ok::<(), RunError>(())
        } else {
            Err::<(), RunError>(RunError::ToolUnavailable)
        },
{
    match probe {
        ToolRun::Succeeded => Ok(()),
        _ => Err(RunError::ToolUnavailable),
    }
}

} // verus!
