use std::time::Duration;

use foxiefox::game_loop::{
    frame_sleep_nanos, initial_output_size, input_action, InputAction, InputEvent, TARGET_FRAME_MILLIS,
    TARGET_FRAME_NANOS,
};

#[test]
fn frame_time_is_sixtieth_of_second_in_whole_millis() {
    assert_eq!(TARGET_FRAME_MILLIS, 16);
    assert_eq!(TARGET_FRAME_NANOS, 16_000_000);
}

#[test]
fn sleep_fills_rest_of_frame() {
    assert_eq!(frame_sleep_nanos(0), 16_000_000);
    assert_eq!(frame_sleep_nanos(1_000_000), 15_000_000);
    assert_eq!(frame_sleep_nanos(15_999_999), 1);
}

#[test]
fn slow_frame_does_not_sleep() {
    assert_eq!(frame_sleep_nanos(16_000_000), 0);
    assert_eq!(frame_sleep_nanos(40_000_000), 0);
    assert_eq!(frame_sleep_nanos(u64::MAX), 0);
}

#[test]
fn sleep_matches_duration_saturating_sub() {
    let target = Duration::from_millis(1000 / 60);
    for render in [0u64, 5, 1_000_000, 16_000_000, 17_000_000] {
        let expected = target.saturating_sub(Duration::from_nanos(render));
        assert_eq!(Duration::from_nanos(frame_sleep_nanos(render)), expected);
    }
}

#[test]
fn zero_window_side_falls_back() {
    assert_eq!(initial_output_size(1280, 720), (1280, 720));
    assert_eq!(initial_output_size(0, 720), (10, 720));
    assert_eq!(initial_output_size(1280, 0), (1280, 10));
    assert_eq!(initial_output_size(0, 0), (10, 10));
}

#[test]
fn quit_and_main_window_close_quit() {
    assert_eq!(input_action(InputEvent::Quit, 1), InputAction::Quit);
    assert_eq!(input_action(InputEvent::CloseRequested { window_id: 1 }, 1), InputAction::Quit);
}

#[test]
fn other_window_close_is_ignored() {
    assert_eq!(input_action(InputEvent::CloseRequested { window_id: 2 }, 1), InputAction::Ignore);
}

#[test]
fn other_events_go_to_screens() {
    assert_eq!(input_action(InputEvent::Other, 1), InputAction::Forward);
}
