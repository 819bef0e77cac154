//! Decisions of the main game loop: what an input event does, how long the
//! loop sleeps before the next frame, and the output size it starts with.

use vstd::prelude::*;

verus! {

/// Frames the main loop aims to render each second.
pub const FRAMES_PER_SECOND: u64 = 60;

/// The time one frame is given, in milliseconds (rounded down).
pub const TARGET_FRAME_MILLIS: u64 = 1000 / FRAMES_PER_SECOND;

/// The time one frame is given, in nanoseconds.
pub const TARGET_FRAME_NANOS: u64 = TARGET_FRAME_MILLIS * 1000000;

/// Side length used for an output dimension the window reports as zero.
pub const FALLBACK_OUTPUT_SIDE: u32 = 10;

/// How long to sleep after a frame that took `render_nanos` to render: what
/// is left of the frame's time, or nothing once it is used up.
pub open spec fn sleep_after(render_nanos: nat) -> nat {
    if render_nanos < TARGET_FRAME_NANOS {
        (TARGET_FRAME_NANOS - render_nanos) as nat
    } else {
        0
    }
}

/// How long the main loop sleeps after a frame that took `render_nanos`.
pub fn frame_sleep_nanos(render_nanos: u64) -> (res: u64)
    ensures
        res == sleep_after(render_nanos as nat),
{
    if render_nanos < TARGET_FRAME_NANOS {
        TARGET_FRAME_NANOS - render_nanos
    } else {
        0
    }
}

/// An output dimension to configure the surface with: the window's, or the
/// fallback when the window reports zero.
pub open spec fn output_side(reported: u32) -> u32 {
    if reported == 0 {
        FALLBACK_OUTPUT_SIDE
    } else {
        reported
    }
}

/// The output size the renderer starts with, given the window's size.
pub fn initial_output_size(width: u32, height: u32) -> (res: (u32, u32))
    ensures
        res == (output_side(width), output_side(height)),
        res.0 > 0 && res.1 > 0,
{
    let w = if width == 0 {
        FALLBACK_OUTPUT_SIDE
    } else {
        width
    };
    let h = if height == 0 {
        FALLBACK_OUTPUT_SIDE
    } else {
        height
    };
    (w, h)
}

/// What the main loop needs to know of an input event to decide on it.
#[derive(Clone, Copy, PartialEq, Eq, Debug, Structural)]
pub enum InputEvent {
    /// The application was asked to quit.
    Quit,
    /// The user asked to close the window with this id.
    CloseRequested { window_id: u32 },
    /// Anything else, for the screens to handle.
    Other,
}

/// What the main loop does with an input event.
#[derive(Clone, Copy, PartialEq, Eq, Debug, Structural)]
pub enum InputAction {
    /// Quit the game.
    Quit,
    /// Drop the event.
    Ignore,
    /// Hand the event to the screens.
    Forward,
}

/// The main loop's decision on an event, given the main window's id: quit on
/// a quit request or on closing the main window, drop a close request for
/// another window, and hand everything else to the screens.
pub open spec fn input_decision(event: InputEvent, main_window_id: u32) -> InputAction {
    match event {
        InputEvent::Quit => InputAction::Quit,
        InputEvent::CloseRequested { window_id } => if window_id == main_window_id {
            InputAction::Quit
        } else {
            InputAction::Ignore
        },
        InputEvent::Other => InputAction::Forward,
    }
}

/// Decides what the main loop does with an input event.
pub fn input_action(event: InputEvent, main_window_id: u32) -> (res: InputAction)
    ensures
        res == input_decision(event, main_window_id),
{
    match event {
        InputEvent::Quit => InputAction::Quit,
        InputEvent::CloseRequested { window_id } => {
            if window_id == main_window_id {
                InputAction::Quit
            } else {
                InputAction::Ignore
            }
        },
        InputEvent::Other => InputAction::Forward,
    }
}

/// A frame never sleeps longer than the frame's time, and a frame that
/// rendered for its whole time or longer does not sleep at all.
pub proof fn law_sleep_within_frame(render_nanos: nat)
    ensures
        sleep_after(render_nanos) <= TARGET_FRAME_NANOS,
        render_nanos >= TARGET_FRAME_NANOS ==> sleep_after(render_nanos) == 0,
        render_nanos <= TARGET_FRAME_NANOS ==> render_nanos + sleep_after(render_nanos)
            == TARGET_FRAME_NANOS,
{
}

/// Only a quit request, or closing the main window, ends the game.
pub proof fn law_only_quit_or_main_close_quits(event: InputEvent, main_window_id: u32)
    ensures
        input_decision(event, main_window_id) == InputAction::Quit <==> (event == InputEvent::Quit
            || event == (InputEvent::CloseRequested { window_id: main_window_id })),
{
}

/// The loop aims at 60 frames a second, given whole milliseconds: each
/// frame has 16 ms.
pub proof fn law_frame_time_is_sixtieth_of_second()
    ensures
        TARGET_FRAME_NANOS == 16_000_000,
        sleep_after(0) == 16_000_000,
{
}

/// Sleeping fills up what a frame left of its time: a frame that took
/// longer sleeps less, never a negative time.
pub proof fn law_longer_frames_sleep_less(a: nat, b: nat)
    requires
        a <= b,
    ensures
        sleep_after(b) <= sleep_after(a),
        b <= TARGET_FRAME_NANOS ==> sleep_after(a) - sleep_after(b) == b - a,
{
}

/// A window size the window reports is kept; a zero side becomes 10 pixels,
/// so the output is never empty.
pub proof fn law_output_side_kept_unless_zero(reported: u32)
    ensures
        reported != 0 ==> output_side(reported) == reported,
        reported == 0 ==> output_side(reported) == 10,
        output_side(reported) > 0,
{
}

/// Events other than quitting and window closing all go to the screens; a
/// close request for another window is dropped, and nothing else is.
pub proof fn law_events_reach_screens(event: InputEvent, main_window_id: u32)
    ensures
        input_decision(event, main_window_id) == InputAction::Forward <==> event == InputEvent::Other,
        input_decision(event, main_window_id) == InputAction::Ignore <==> (event matches InputEvent::CloseRequested { window_id } && window_id != main_window_id),
{
}

} // verus!
