//! The exit-code policy: which executions substitute their output and
//! which produce the mismatch report.

use mdbook_cmdrun::cmdrun::{CommandStep, ExecutionResult};
use mdbook_cmdrun::format::Platform;
use mdbook_cmdrun::CmdRun;

fn ran(exit_code: Option<i32>, stdout: &str, stderr: &str) -> ExecutionResult {
    ExecutionResult { exit_code, stdout: stdout.to_string(), stderr: stderr.to_string() }
}

#[test]
fn no_expectation_accepts_any_exit_code() {
    for code in [0, 1, 2, 126, 127] {
        let r = ran(Some(code), "hello\n", "noise\n");
        let out = CmdRun::resolve_cmdrun("some-cmd", None, &r, false, Platform::Posix);
        assert_eq!(out, "hello\n");
    }
}

#[test]
fn matching_exit_code_substitutes_output() {
    let r = ran(Some(3), "ok\n", "");
    let out = CmdRun::resolve_cmdrun("exit 3", Some(3), &r, false, Platform::Posix);
    assert_eq!(out, "ok\n");
}

#[test]
fn short_form_match_with_empty_output() {
    // "-1 exit 1": the command exits 1 as expected and prints nothing.
    let (cmd, code) = match CmdRun::parse_cmdrun("-1 exit 1") {
        CommandStep::Execute { command, expected_code } => (command, expected_code),
        CommandStep::Rendered { message } => panic!("unexpected error {:?}", message),
    };
    let r = ran(Some(1), "", "");
    let out = CmdRun::resolve_cmdrun(&cmd, code, &r, false, Platform::Posix);
    assert_eq!(out, "");
}

#[test]
fn mismatch_produces_the_exact_report() {
    // "-0 exit 1": expected 0, got 1.
    let (cmd, code) = match CmdRun::parse_cmdrun("-0 exit 1") {
        CommandStep::Execute { command, expected_code } => (command, expected_code),
        CommandStep::Rendered { message } => panic!("unexpected error {:?}", message),
    };
    let r = ran(Some(1), "partial out\n", "boom\n");
    let out = CmdRun::resolve_cmdrun(&cmd, code, &r, false, Platform::Posix);
    assert_eq!(
        out,
        "**cmdrun error**: 'exit 1' returned exit code 1 instead of 0.\npartial out\n\nboom\n"
    );
}

#[test]
fn mismatch_report_uses_raw_streams() {
    // The report embeds the streams unformatted: trailing blank lines stay.
    let r = ran(Some(2), "out\n\n", "err");
    let out = CmdRun::resolve_cmdrun("cmd", Some(0), &r, true, Platform::Posix);
    assert_eq!(
        out,
        "**cmdrun error**: 'cmd' returned exit code 2 instead of 0.\nout\n\n\nerr"
    );
}

#[test]
fn mismatch_renders_negative_codes() {
    let r = ran(Some(-3), "", "");
    let out = CmdRun::resolve_cmdrun("c", Some(7), &r, false, Platform::Posix);
    assert_eq!(out, "**cmdrun error**: 'c' returned exit code -3 instead of 7.\n\n");
}

#[test]
fn signal_ended_command_reports_inline_error() {
    let r = ran(None, "ignored", "ignored");
    let out = CmdRun::resolve_cmdrun("sleep 100", Some(0), &r, false, Platform::Posix);
    assert_eq!(
        out,
        "**cmdrun error**: Command was ended before completing in 'cmdrun sleep 100'"
    );
}

#[test]
fn supports_only_the_html_renderer() {
    assert!(CmdRun.supports_renderer("html"));
    assert!(!CmdRun.supports_renderer("pdf"));
    assert!(!CmdRun.supports_renderer(""));
}
