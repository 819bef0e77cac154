use foxiefox::logging::loglevel::LogLevel;
use foxiefox::logging::{
    format_forwarded, module_name, should_forward, split_lines, starts_with, Logger,
};

#[test]
fn log_level_names() {
    assert_eq!(LogLevel::Fatal.to_string(), "Fatal");
    assert_eq!(LogLevel::Alert.name(), "Alert");
    assert_eq!(LogLevel::Error.name(), "Error");
    assert_eq!(LogLevel::Warning.name(), "Warning");
    assert_eq!(LogLevel::Info.name(), "Info");
    assert_eq!(LogLevel::Debug.name(), "Debug");
    assert_eq!(LogLevel::Trace.name(), "Trace");
}

#[test]
fn split_lines_matches_std_lines() {
    let samples = ["", "a", "a\n", "a\nb", "a\r\nb\r\n", "\n", "\n\n", "x\r", "x\r\n\r\ny", "é\nü"];
    for s in samples {
        let expected: Vec<String> = s.lines().map(|l| l.to_string()).collect();
        assert_eq!(split_lines(s), expected, "for {s:?}");
    }
}

#[test]
fn split_lines_final_newline_is_optional() {
    assert_eq!(split_lines("one\ntwo"), split_lines("one\ntwo\n"));
}

#[test]
fn logger_names() {
    let a = Logger::new("Main".to_string());
    let b = Logger::new_str("Logging");
    assert_eq!(a.name(), "Main");
    assert_eq!(b.name(), "Logging");
}

#[test]
fn logger_formats_a_line() {
    let logger = Logger::new_str("Main");
    assert_eq!(
        logger.format_line(LogLevel::Info, "      1.500000", "main", "Hello, world!"),
        "[      1.500000] [main/Info] [Main] Hello, world!"
    );
}

#[test]
fn starts_with_checks_prefix() {
    assert!(starts_with("wgpu_hal::vulkan", "wgpu_hal"));
    assert!(starts_with("naga", "naga"));
    assert!(!starts_with("nag", "naga"));
    assert!(!starts_with("wgpu_core", "wgpu_hal"));
    assert!(starts_with("anything", ""));
}

#[test]
fn wgpu_hal_is_muted_at_every_level() {
    for level in [LogLevel::Error, LogLevel::Warning, LogLevel::Info, LogLevel::Debug, LogLevel::Trace] {
        assert!(!should_forward("wgpu_hal::vulkan::instance", level));
    }
}

#[test]
fn noisy_modules_forward_up_to_info() {
    assert!(should_forward("wgpu_core::device", LogLevel::Error));
    assert!(should_forward("wgpu_core::device", LogLevel::Info));
    assert!(!should_forward("wgpu_core::device", LogLevel::Debug));
    assert!(!should_forward("naga::front", LogLevel::Trace));
    assert!(should_forward("naga::front", LogLevel::Warning));
}

#[test]
fn other_modules_forward_every_level() {
    assert!(should_forward("tokio::runtime", LogLevel::Trace));
    assert!(should_forward("<unknown module>", LogLevel::Debug));
}

#[test]
fn forwarded_message_text() {
    assert_eq!(format_forwarded("wgpu_core", "hi"), "[mod wgpu_core] hi");
    assert_eq!(module_name(Some("a::b")), "a::b");
    assert_eq!(module_name(None), "<unknown module>");
}
