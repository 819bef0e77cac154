use foxiefox::util::idented_writer::IdentedWriter;

#[test]
fn writer_indents_every_line() {
    let mut w = IdentedWriter::new(1, "  ", false);
    assert_eq!(w.write_str("a\nb\n"), "  a\n  b\n");
    assert!(w.needs_indent());
}

#[test]
fn writer_can_skip_first_line() {
    let mut w = IdentedWriter::new(2, "-", true);
    assert_eq!(w.write_str("first\nsecond"), "first\n--second");
    assert!(!w.needs_indent());
}

#[test]
fn writer_indents_blank_lines_but_not_trailing_end() {
    let mut w = IdentedWriter::new(1, "> ", false);
    assert_eq!(w.write_str("a\n\nb\n"), "> a\n> \n> b\n");
}

#[test]
fn writer_state_carries_across_writes() {
    let mut whole = IdentedWriter::new(1, "\t", false);
    let all = whole.write_str("x\ny\nz");
    let mut split = IdentedWriter::new(1, "\t", false);
    let mut parts = String::new();
    parts.push_str(&split.write_str("x\n"));
    parts.push_str(&split.write_str("y"));
    parts.push_str(&split.write_str(""));
    parts.push_str(&split.write_str("\nz"));
    assert_eq!(all, parts);
    assert_eq!(all, "\tx\n\ty\n\tz");
}

#[test]
fn writer_with_zero_depth_passes_text_through() {
    let mut w = IdentedWriter::new(0, "  ", false);
    assert_eq!(w.write_str("a\nb"), "a\nb");
}

#[test]
fn writer_empty_write_keeps_state() {
    let mut w = IdentedWriter::new(1, " ", false);
    assert_eq!(w.write_str(""), "");
    assert!(w.needs_indent());
    assert_eq!(w.write_str("q"), " q");
}

// The text a write sends, built from the pieces between newlines.
fn split_form(s: &str, indent: &str, at_line_start: bool) -> String {
    let parts: Vec<&str> = s.split('\n').collect();
    let k = parts.len();
    let pieces: Vec<String> = parts
        .iter()
        .enumerate()
        .map(|(i, p)| {
            let prefix = if (i > 0 || at_line_start) && !(i == k - 1 && p.is_empty()) { indent } else { "" };
            format!("{prefix}{p}")
        })
        .collect();
    pieces.join("\n")
}

#[test]
fn writer_matches_split_form() {
    for text in ["", "a", "\n", "a\n", "\nb", "a\n\nb\n", "x\ny", "\n\n"] {
        for at_line_start in [true, false] {
            let mut w = IdentedWriter::new(2, "--", !at_line_start);
            assert_eq!(w.write_str(text), split_form(text, "----", at_line_start), "{text:?}");
        }
    }
}
