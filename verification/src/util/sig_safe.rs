//! Decisions of the async-signal-safe output loop.

use vstd::prelude::*;

verus! {

/// What the output loop does after one `write` call.
#[derive(PartialEq, Eq, Debug, Structural)]
pub enum WriteStep {
    /// The call failed: give up silently (a signal handler cannot report it).
    Stop,
    /// Continue with the bytes from this offset of the remaining ones.
    Advance(usize),
}

/// The step taken after a `write` of `remaining` bytes returned `written`
/// (the count written, or -1 on error).
pub fn after_write(remaining: usize, written: isize) -> (res: WriteStep)
    requires
        -1 <= written <= remaining,
    ensures
        written == -1 ==> res == WriteStep::Stop,
        written >= 0 ==> res == WriteStep::Advance(written as usize),
{
    if written == -1 {
        WriteStep::Stop
    } else {
        WriteStep::Advance(written as usize)
    }
}

} // verus!
