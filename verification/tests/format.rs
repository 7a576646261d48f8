//! Output formatting: inline trimming, the single block terminator, and
//! the line-ending rewriting of the second platform family.

use mdbook_cmdrun::format::Platform;
use mdbook_cmdrun::CmdRun;

#[test]
fn piped_output_block_and_inline() {
    // What `echo " coucou   " | tr -d ' '` prints.
    let captured = "coucou\n";
    assert_eq!(CmdRun::format_whitespace(captured, false, Platform::Posix), "coucou\n");
    assert_eq!(CmdRun::format_whitespace(captured, true, Platform::Posix), "coucou");
}

#[test]
fn four_line_pipe_output_block_and_inline() {
    // What `yes 42 | head -n 4 | sed 's/$/  /'` prints: four lines of
    // "42  ", each keeping its trailing spaces.
    let captured = "42  \n42  \n42  \n42  \n";
    assert_eq!(
        CmdRun::format_whitespace(captured, false, Platform::Posix),
        "42  \n42  \n42  \n42  \n"
    );
    assert_eq!(
        CmdRun::format_whitespace(captured, true, Platform::Posix),
        "42  \n42  \n42  \n42"
    );
}

#[test]
fn inline_strips_trailing_blank_lines() {
    assert_eq!(CmdRun::format_whitespace("hi\n\n\n", true, Platform::Posix), "hi");
    assert_eq!(CmdRun::format_whitespace("hi \t \n\n", true, Platform::Posix), "hi");
}

#[test]
fn inline_keeps_leading_whitespace() {
    assert_eq!(CmdRun::format_whitespace("  hi\n", true, Platform::Posix), "  hi");
}

#[test]
fn block_collapses_trailing_blank_lines_to_one_terminator() {
    assert_eq!(CmdRun::format_whitespace("hi\n\n\n", false, Platform::Posix), "hi\n");
    assert_eq!(CmdRun::format_whitespace("hi", false, Platform::Posix), "hi\n");
}

#[test]
fn empty_output_stays_empty() {
    assert_eq!(CmdRun::format_whitespace("", false, Platform::Posix), "");
    assert_eq!(CmdRun::format_whitespace("", true, Platform::Posix), "");
    assert_eq!(CmdRun::format_whitespace("\n\n", false, Platform::Posix), "");
    assert_eq!(CmdRun::format_whitespace("\n\n", true, Platform::Posix), "");
}

#[test]
fn windows_block_rewrites_line_breaks() {
    assert_eq!(
        CmdRun::format_whitespace("a\nb\n", false, Platform::Windows),
        "a\r\nb\r\n"
    );
    assert_eq!(
        CmdRun::format_whitespace("a\r\nb\n\n", false, Platform::Windows),
        "a\r\nb\r\n"
    );
}

#[test]
fn windows_inline_rewrites_interior_breaks_after_trimming() {
    assert_eq!(
        CmdRun::format_whitespace("a\nb  \n", true, Platform::Windows),
        "a\r\nb"
    );
}

#[test]
fn inline_formatting_is_idempotent_on_samples() {
    let samples = ["", "x", "x  \n\n", "a\nb\r\n", " spaced out \t"];
    for s in samples {
        for p in [Platform::Posix, Platform::Windows] {
            let once = CmdRun::format_whitespace(s, true, p);
            let twice = CmdRun::format_whitespace(&once, true, p);
            assert_eq!(once, twice);
        }
    }
}

#[test]
fn shell_strategy_per_platform() {
    assert_eq!(Platform::Posix.shell_program(), "sh");
    assert_eq!(Platform::Posix.shell_flag(), "-c");
    assert_eq!(Platform::Windows.shell_program(), "cmd");
    assert_eq!(Platform::Windows.shell_flag(), "/C");
}
