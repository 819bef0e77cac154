//! Decisions taken when the process is asked to quit by a signal.

use vstd::prelude::*;

use crate::util::number_text::{decimal, decimal_string};

verus! {

/// Interrupts handled by the main loop after which it warns of a hard quit.
pub const WARN_INTERRUPT_COUNT: u32 = 3;

/// Interrupts handled by the main loop after which it quits hard.
pub const MAX_INTERRUPT_COUNT: u32 = 5;

/// Interrupts seen by the signal handler itself after which it warns.
pub const WARN_SIG_INTERRUPT_COUNT: u32 = 8;

/// Interrupts seen by the signal handler itself after which it exits.
pub const MAX_SIG_INTERRUPT_COUNT: u32 = 15;

/// Time given to an orderly shutdown after SIGTERM, in milliseconds.
pub const GRACEFUL_SHUTDOWN_MILISEC: u64 = 10000;

/// The count of interrupts after one more, given the count before.
pub open spec fn next_count(previous: u32) -> u32 {
    if previous == u32::MAX {
        u32::MAX
    } else {
        (previous + 1) as u32
    }
}

/// What the main loop does when it receives SIGINT.
#[derive(PartialEq, Eq, Debug, Structural)]
pub enum SigintVerdict {
    /// Too many interrupts: stop waiting for the game and quit hard.
    HardQuit,
    /// Ask the game to shut down. `warn_remaining` holds how many more
    /// interrupts trigger a hard quit, when that is worth a warning; `first`
    /// tells that this is the first interrupt.
    Shutdown { warn_remaining: Option<u32>, first: bool },
}

/// The main loop's answer to an interrupt, given how many it had before.
pub open spec fn sigint_verdict(previous: u32) -> SigintVerdict {
    let current = next_count(previous);
    if current >= MAX_INTERRUPT_COUNT {
        SigintVerdict::HardQuit
    } else {
        SigintVerdict::Shutdown {
            warn_remaining: if current >= WARN_INTERRUPT_COUNT {
                Some((MAX_INTERRUPT_COUNT - current) as u32)
            } else {
                None
            },
            first: current == 1,
        }
    }
}

/// The main loop's answer to an interrupt, with the new interrupt count.
pub fn on_sigint(previous: u32) -> (res: (u32, SigintVerdict))
    ensures
        res.0 == next_count(previous),
        res.1 == sigint_verdict(previous),
{
    let current = previous.saturating_add(1);
    if current >= MAX_INTERRUPT_COUNT {
        return (current, SigintVerdict::HardQuit);
    }
    let warn_remaining = if current >= WARN_INTERRUPT_COUNT {
        Some(MAX_INTERRUPT_COUNT.saturating_sub(current))
    } else {
        None
    };
    (current, SigintVerdict::Shutdown { warn_remaining, first: current == 1 })
}

/// What the signal handler does on an interrupt, before the main loop sees it.
#[derive(PartialEq, Eq, Debug, Structural)]
pub enum SignalHandlerVerdict {
    /// Leave the interrupt to the main loop.
    Ignore,
    /// Warn that `remaining` more interrupts make the handler exit.
    Warn { remaining: u32 },
    /// Exit at once.
    Exit,
}

/// The signal handler's answer to an interrupt, given how many it saw before.
pub open spec fn hardquit_verdict(previous: u32) -> SignalHandlerVerdict {
    let current = next_count(previous);
    if current >= MAX_SIG_INTERRUPT_COUNT {
        SignalHandlerVerdict::Exit
    } else if current >= WARN_SIG_INTERRUPT_COUNT {
        SignalHandlerVerdict::Warn { remaining: (MAX_SIG_INTERRUPT_COUNT - current) as u32 }
    } else {
        SignalHandlerVerdict::Ignore
    }
}

/// The signal handler's answer to an interrupt, with the new count. It
/// allocates nothing, so a signal handler may call it.
pub fn handle_sig_hardquit(previous: u32) -> (res: (u32, SignalHandlerVerdict))
    ensures
        res.0 == next_count(previous),
        res.1 == hardquit_verdict(previous),
{
    let current = previous.saturating_add(1);
    if current >= MAX_SIG_INTERRUPT_COUNT {
        (current, SignalHandlerVerdict::Exit)
    } else if current >= WARN_SIG_INTERRUPT_COUNT {
        (current, SignalHandlerVerdict::Warn { remaining: MAX_SIG_INTERRUPT_COUNT.saturating_sub(current) })
    } else {
        (current, SignalHandlerVerdict::Ignore)
    }
}

/// The SIGTERM handler's answer to a SIGTERM: one that comes while the game
/// is already shutting down (after an earlier SIGTERM) exits at once; any
/// other is left to the main loop. It allocates nothing, so a signal handler
/// may call it.
pub fn handle_sig_term(is_shutting_down: bool) -> (res: SignalHandlerVerdict)
    ensures
        res == (if is_shutting_down {
            SignalHandlerVerdict::Exit
        } else {
            SignalHandlerVerdict::Ignore
        }),
{
    if is_shutting_down {
        SignalHandlerVerdict::Exit
    } else {
        SignalHandlerVerdict::Ignore
    }
}

/// What the SIGTERM handler writes before it exits.
pub fn sigterm_exit_message() -> (res: &'static str)
    ensures
        res@ == "[Signal Handler] Main thread didnt cleanup in time before next SIGTERM, hard quitting\n"@,
{
    "[Signal Handler] Main thread didnt cleanup in time before next SIGTERM, hard quitting\n"
}

/// The text logged when the main loop quits hard.
pub open spec fn hard_quit_text() -> Seq<char> {
    "Unresponsive main loop. Hard quitting now, interrupts exceeds "@ + decimal(
        MAX_INTERRUPT_COUNT as nat,
    )
}

/// The text logged when the main loop quits hard.
pub fn hard_quit_message() -> (res: String)
    ensures
        res@ == hard_quit_text(),
{
    let mut res = String::from_str("Unresponsive main loop. Hard quitting now, interrupts exceeds ");
    res.append(decimal_string(MAX_INTERRUPT_COUNT as u64).as_str());
    res
}

/// The text logged when `remaining` more interrupts make the main loop quit.
pub open spec fn hard_quit_warning_text(remaining: u32) -> Seq<char> {
    "Unresponsive main loop. Hard quit will trigger in "@ + decimal(remaining as nat)
        + " signal count"@
}

/// The text logged when `remaining` more interrupts make the main loop quit.
pub fn hard_quit_warning_message(remaining: u32) -> (res: String)
    ensures
        res@ == hard_quit_warning_text(remaining),
{
    let mut res = String::from_str("Unresponsive main loop. Hard quit will trigger in ");
    res.append(decimal_string(remaining as u64).as_str());
    res.append(" signal count");
    res
}

/// The text logged when SIGTERM starts an orderly shutdown.
pub open spec fn sigterm_text() -> Seq<char> {
    "SIGTERM received starting orderly shutdown with deadline in "@ + decimal(
        GRACEFUL_SHUTDOWN_MILISEC as nat,
    ) + " ms"@
}

/// The text logged when SIGTERM starts an orderly shutdown.
pub fn sigterm_message() -> (res: String)
    ensures
        res@ == sigterm_text(),
{
    let mut res = String::from_str("SIGTERM received starting orderly shutdown with deadline in ");
    res.append(decimal_string(GRACEFUL_SHUTDOWN_MILISEC).as_str());
    res.append(" ms");
    res
}

/// The text logged when the game did not shut down in time after SIGTERM.
pub open spec fn shutdown_timeout_text() -> Seq<char> {
    "Program did not shutdown in "@ + decimal(GRACEFUL_SHUTDOWN_MILISEC as nat) + " ms"@
}

/// The text logged when the game did not shut down in time after SIGTERM.
pub fn shutdown_timeout_message() -> (res: String)
    ensures
        res@ == shutdown_timeout_text(),
{
    let mut res = String::from_str("Program did not shutdown in ");
    res.append(decimal_string(GRACEFUL_SHUTDOWN_MILISEC).as_str());
    res.append(" ms");
    res
}

} // verus!

verus! {

/// The first interrupt asks for an orderly shutdown, without warning.
pub proof fn law_first_interrupt_shuts_down()
    ensures
        sigint_verdict(0) == (SigintVerdict::Shutdown { warn_remaining: None, first: true }),
        hardquit_verdict(0) == SignalHandlerVerdict::Ignore,
{
}

/// Once the main loop quits hard on an interrupt, it would on every further
/// one too; the same holds of the signal handler's exit.
pub proof fn law_hard_quit_persists(previous: u32)
    ensures
        sigint_verdict(previous) == SigintVerdict::HardQuit ==> sigint_verdict(next_count(previous))
            == SigintVerdict::HardQuit,
        hardquit_verdict(previous) == SignalHandlerVerdict::Exit ==> hardquit_verdict(
            next_count(previous),
        ) == SignalHandlerVerdict::Exit,
{
}

/// A warning counts down by one interrupt at a time, and the interrupt after
/// a warning of one remaining quits hard.
pub proof fn law_warnings_count_down(previous: u32)
    ensures
        sigint_verdict(previous) matches SigintVerdict::Shutdown { warn_remaining: Some(r), .. }
            ==> (if r > 1 {
            sigint_verdict(next_count(previous)) matches SigintVerdict::Shutdown {
                warn_remaining: Some(r2),
                ..
            } && r2 == r - 1
        } else {
            sigint_verdict(next_count(previous)) == SigintVerdict::HardQuit
        }),
        hardquit_verdict(previous) matches SignalHandlerVerdict::Warn { remaining: r } ==> (if r
            > 1 {
            hardquit_verdict(next_count(previous)) == (SignalHandlerVerdict::Warn {
                remaining: (r - 1) as u32,
            })
        } else {
            hardquit_verdict(next_count(previous)) == SignalHandlerVerdict::Exit
        }),
{
}

/// The main loop quits hard well before the signal handler would exit: the
/// handler only warns from the interrupt the main loop quits at.
pub proof fn law_main_loop_quits_first(previous: u32)
    ensures
        hardquit_verdict(previous) != SignalHandlerVerdict::Ignore ==> sigint_verdict(previous)
            == SigintVerdict::HardQuit,
{
}

} // verus!
