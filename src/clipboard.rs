//! When to try the clipboard again. The caller makes each attempt and
//! waits; this module decides what follows an attempt.

use vstd::prelude::*;

verus! {

/// The most attempts at writing the clipboard.
pub const MAX_ATTEMPTS: u32 = 3;

/// The wait between two attempts, in milliseconds.
pub const RETRY_DELAY_MS: u64 = 50;

/// What follows an attempt at writing the clipboard.
#[derive(Clone, Copy, Debug, PartialEq, Eq, Structural)]
pub enum ClipboardStep {
    /// The text is on the clipboard.
    Done,
    /// Wait this many milliseconds, then try again.
    RetryAfter(u64),
    /// Give up and report the last failure.
    Fail,
}

/// What follows attempt number `attempt` (counted from 0), which
/// succeeded or not.
pub fn after_attempt(attempt: u32, succeeded: bool) -> (r: ClipboardStep)
    ensures
        succeeded ==> r == ClipboardStep::Done,
        !succeeded && attempt + 1 >= MAX_ATTEMPTS ==> r == ClipboardStep::Fail,
        !succeeded && attempt + 1 < MAX_ATTEMPTS ==> r == ClipboardStep::RetryAfter(
            RETRY_DELAY_MS,
        ),
{
    if succeeded {
        ClipboardStep::Done
    } else if attempt >= MAX_ATTEMPTS - 1 {
        ClipboardStep::Fail
    } else {
        ClipboardStep::RetryAfter(RETRY_DELAY_MS)
    }
}

} // verus!
