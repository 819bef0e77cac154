use foxiefox::fail_safe::{
    handle_sig_hardquit, handle_sig_term, sigterm_exit_message, hard_quit_message, hard_quit_warning_message, on_sigint, shutdown_timeout_message,
    sigterm_message, SignalHandlerVerdict, SigintVerdict,
};
use foxiefox::util::sig_safe::{after_write, WriteStep};

#[test]
fn sigint_escalates() {
    assert_eq!(on_sigint(0), (1, SigintVerdict::Shutdown { warn_remaining: None, first: true }));
    assert_eq!(on_sigint(1), (2, SigintVerdict::Shutdown { warn_remaining: None, first: false }));
    assert_eq!(on_sigint(2), (3, SigintVerdict::Shutdown { warn_remaining: Some(2), first: false }));
    assert_eq!(on_sigint(3), (4, SigintVerdict::Shutdown { warn_remaining: Some(1), first: false }));
    assert_eq!(on_sigint(4), (5, SigintVerdict::HardQuit));
    assert_eq!(on_sigint(100), (101, SigintVerdict::HardQuit));
}

#[test]
fn sigint_count_saturates() {
    assert_eq!(on_sigint(u32::MAX), (u32::MAX, SigintVerdict::HardQuit));
    assert_eq!(handle_sig_hardquit(u32::MAX), (u32::MAX, SignalHandlerVerdict::Exit));
}

#[test]
fn signal_handler_escalates() {
    assert_eq!(handle_sig_hardquit(0), (1, SignalHandlerVerdict::Ignore));
    assert_eq!(handle_sig_hardquit(6), (7, SignalHandlerVerdict::Ignore));
    assert_eq!(handle_sig_hardquit(7), (8, SignalHandlerVerdict::Warn { remaining: 7 }));
    assert_eq!(handle_sig_hardquit(13), (14, SignalHandlerVerdict::Warn { remaining: 1 }));
    assert_eq!(handle_sig_hardquit(14), (15, SignalHandlerVerdict::Exit));
}

#[test]
fn fail_safe_messages() {
    assert_eq!(hard_quit_message(), "Unresponsive main loop. Hard quitting now, interrupts exceeds 5");
    assert_eq!(
        hard_quit_warning_message(2),
        "Unresponsive main loop. Hard quit will trigger in 2 signal count"
    );
    assert_eq!(
        sigterm_message(),
        "SIGTERM received starting orderly shutdown with deadline in 10000 ms"
    );
    assert_eq!(shutdown_timeout_message(), "Program did not shutdown in 10000 ms");
}

#[test]
fn write_loop_steps() {
    assert_eq!(after_write(10, -1), WriteStep::Stop);
    assert_eq!(after_write(10, 4), WriteStep::Advance(4));
    assert_eq!(after_write(10, 10), WriteStep::Advance(10));
}

#[test]
fn sigterm_during_shutdown_exits() {
    assert_eq!(handle_sig_term(true), SignalHandlerVerdict::Exit);
    assert_eq!(handle_sig_term(false), SignalHandlerVerdict::Ignore);
    assert_eq!(
        sigterm_exit_message(),
        "[Signal Handler] Main thread didnt cleanup in time before next SIGTERM, hard quitting\n"
    );
}
