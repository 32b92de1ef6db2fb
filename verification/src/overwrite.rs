//! What to do about a destination that is already there.

use vstd::prelude::*;
use vstd::slice::slice_subrange;
use crate::text::{eq_ignore_ascii_case, same_ignoring_case, to_chars, trim_bounds, trimmed};

verus! {

/// The rule of a run for destinations that already exist.
#[derive(Clone, Copy, Debug, PartialEq, Eq, Structural)]
pub enum OverwritePolicy {
    /// Leave the file alone and skip the task.
    Skip,
    /// Ask the operator, where there is one to ask.
    Prompt,
    /// Convert again and overwrite.
    Replace,
}

/// What the rule comes to for one task.
#[derive(Clone, Copy, Debug, PartialEq, Eq, Structural)]
pub enum Resolution {
    /// Go on to the conversion.
    Proceed,
    /// Do not convert.
    Skip,
    /// Put the question to the operator and go by the answer.
    Ask,
}

/// The rule: a destination that does not exist never stands in the way; one
/// that exists is skipped under `Skip`, overwritten under `Replace`, and under
/// `Prompt` asked about, or skipped where nobody can be asked.
pub open spec fn resolution(policy: OverwritePolicy, exists: bool, may_ask: bool) -> Resolution {
    if !exists {
        Resolution::Proceed
    } else {
        match policy {
            OverwritePolicy::Skip => Resolution::Skip,
            OverwritePolicy::Replace => Resolution::Proceed,
            OverwritePolicy::Prompt => if may_ask {
                Resolution::Ask
            } else {
                Resolution::Skip
            },
        }
    }
}

/// Whether an answer says yes: once the white space at its ends is gone it is
/// `y`, `o` or `oui`, in either case.
pub open spec fn is_affirmative(answer: Seq<char>) -> bool {
    let word = trimmed(answer);
    ||| same_ignoring_case(word, "y"@)
    ||| same_ignoring_case(word, "o"@)
    ||| same_ignoring_case(word, "oui"@)
}

/// Applies the rule to one destination. `may_ask` says whether an operator
/// can be asked.
pub fn resolve(policy: OverwritePolicy, exists: bool, may_ask: bool) -> (r: Resolution)
    ensures
        r == resolution(policy, exists, may_ask),
{
    if !exists {
        return Resolution::Proceed;
    }
    match policy {
        OverwritePolicy::Skip => Resolution::Skip,
        OverwritePolicy::Replace => Resolution::Proceed,
        OverwritePolicy::Prompt => if may_ask {
            Resolution::Ask
        } else {
            Resolution::Skip
        },
    }
}

/// Whether the operator's answer says yes.
pub fn affirmative(answer: &str) -> (yes: bool)
    ensures
        yes == is_affirmative(answer@),
{
    let chars = to_chars(answer);
    let (start, end) = trim_bounds(chars.as_slice());
    let word = slice_subrange(chars.as_slice(), start, end);
    let y = to_chars("y");
    let o = to_chars("o");
    let oui = to_chars("oui");
    eq_ignore_ascii_case(word, y.as_slice()) || eq_ignore_ascii_case(word, o.as_slice())
        || eq_ignore_ascii_case(word, oui.as_slice())
}

} // verus!
