//! Payload parsing: flag recognition, exit-code extraction, and the exact
//! error texts for malformed flags.

use mdbook_cmdrun::cmdrun::CommandStep;
use mdbook_cmdrun::CmdRun;

fn expect_execute(payload: &str) -> (String, Option<i32>) {
    match CmdRun::parse_cmdrun(payload) {
        CommandStep::Execute { command, expected_code } => (command, expected_code),
        CommandStep::Rendered { message } => {
            panic!("expected a command for {:?}, got error {:?}", payload, message)
        }
    }
}

fn expect_rendered(payload: &str) -> String {
    match CmdRun::parse_cmdrun(payload) {
        CommandStep::Rendered { message } => message,
        CommandStep::Execute { command, .. } => {
            panic!("expected an error for {:?}, got command {:?}", payload, command)
        }
    }
}

#[test]
fn plain_command_has_no_expectation() {
    let (cmd, code) = expect_execute("echo hi");
    assert_eq!(cmd, "echo hi");
    assert_eq!(code, None);
}

#[test]
fn plain_command_is_trimmed() {
    let (cmd, code) = expect_execute("  echo hi   ");
    assert_eq!(cmd, "echo hi");
    assert_eq!(code, None);
}

#[test]
fn plain_command_keeps_interior_spacing() {
    let (cmd, _) = expect_execute("echo 'a   b' ");
    assert_eq!(cmd, "echo 'a   b'");
}

#[test]
fn short_form_positive() {
    let (cmd, code) = expect_execute("-1 exit 1");
    assert_eq!(cmd, "exit 1");
    assert_eq!(code, Some(1));
}

#[test]
fn short_form_zero() {
    let (cmd, code) = expect_execute("-0 exit 1");
    assert_eq!(cmd, "exit 1");
    assert_eq!(code, Some(0));
}

#[test]
fn short_form_takes_suffix_after_last_dash() {
    let (cmd, code) = expect_execute("-5-2 echo hi");
    assert_eq!(cmd, "echo hi");
    assert_eq!(code, Some(2));
}

#[test]
fn short_form_not_a_number() {
    let message = expect_rendered("-NaN echo hi");
    assert_eq!(
        message,
        "**cmdrun error**: Unable to interpret short-form exit code -NaN as a number \
         in 'cmdrun -NaN echo hi'"
    );
}

#[test]
fn strict_expects_zero() {
    let (cmd, code) = expect_execute("--strict echo hi");
    assert_eq!(cmd, "echo hi");
    assert_eq!(code, Some(0));
}

#[test]
fn strict_collapses_interior_whitespace() {
    let (cmd, _) = expect_execute("--strict echo   a    b");
    assert_eq!(cmd, "echo a b");
}

#[test]
fn expect_return_code_takes_the_number() {
    let (cmd, code) = expect_execute("--expect-return-code 3 exit 3");
    assert_eq!(cmd, "exit 3");
    assert_eq!(code, Some(3));
}

#[test]
fn expect_return_code_takes_a_negative_number() {
    let (cmd, code) = expect_execute("--expect-return-code -2 echo");
    assert_eq!(cmd, "echo");
    assert_eq!(code, Some(-2));
}

#[test]
fn expect_return_code_without_number() {
    let message = expect_rendered("--expect-return-code");
    assert_eq!(
        message,
        "**cmdrun error**: No return code after '--expect-return-code' \
         in 'cmdrun --expect-return-code'"
    );
}

#[test]
fn expect_return_code_with_bad_number() {
    let message = expect_rendered("--expect-return-code later echo hi");
    assert_eq!(
        message,
        "**cmdrun error**: No return code after '--expect-return-code' \
         in 'cmdrun --expect-return-code later echo hi'"
    );
}

#[test]
fn unrecognized_long_flag() {
    let message = expect_rendered("--badflag echo hi");
    assert_eq!(
        message,
        "**cmdrun error**: Unrecognized cmdrun flag --badflag in 'cmdrun --badflag echo hi'"
    );
}

#[test]
fn empty_payload_is_an_empty_command() {
    let (cmd, code) = expect_execute("   ");
    assert_eq!(cmd, "");
    assert_eq!(code, None);
}

#[test]
fn error_message_format() {
    let msg = CmdRun::cmdrun_error_message("some reason", "some command");
    assert_eq!(msg, "**cmdrun error**: some reason in 'cmdrun some command'");
}
