//! The document-visible error texts: a failed directive never aborts the
//! rewrite, it becomes one of these messages in place of the directive.

use vstd::prelude::*;
use vstd::string::*;
use crate::numbers::{int_to_dec, i32_to_string};

verus! {

/// The inline error annotation: the reason, then the payload the directive
/// carried, so the reader can find the offending directive.
pub open spec fn spec_error_message(message: Seq<char>, command: Seq<char>) -> Seq<char> {
    "**cmdrun error**: "@ + message + " in 'cmdrun "@ + command + "'"@
}

/// The text reported when a command exits with a code other than the one
/// the directive expected: the command, both codes, then the raw captured
/// output streams.
pub open spec fn spec_mismatch_message(
    command: Seq<char>,
    actual: int,
    expected: int,
    stdout: Seq<char>,
    stderr: Seq<char>,
) -> Seq<char> {
    "**cmdrun error**: '"@ + command + "' returned exit code "@ + int_to_dec(actual)
        + " instead of "@ + int_to_dec(expected) + ".\n"@ + stdout + "\n"@ + stderr
}

/// The reason reported when `--expect-return-code` has no numeric argument.
pub open spec fn msg_no_return_code() -> Seq<char> {
    "No return code after '--expect-return-code'"@
}

/// The reason reported for an unknown long-form flag.
pub open spec fn msg_unrecognized_flag(flag: Seq<char>) -> Seq<char> {
    "Unrecognized cmdrun flag "@ + flag
}

/// The reason reported when a short-form flag is not a number.
pub open spec fn msg_short_form(flag: Seq<char>) -> Seq<char> {
    "Unable to interpret short-form exit code "@ + flag + " as a number"@
}

/// The reason reported when the command was terminated by a signal and so
/// has no exit status.
pub open spec fn msg_ended_early() -> Seq<char> {
    "Command was ended before completing"@
}

/// Build the inline error annotation for a reason and a command.
pub fn error_message_of(message: &str, command: &str) -> (r: String)
    ensures
        r@ == spec_error_message(message@, command@),
{
    let mut r = String::from_str("**cmdrun error**: ");
    r.append(message);
    r.append(" in 'cmdrun ");
    r.append(command);
    r.append("'");
    r
}

/// Build the exit-code mismatch report.
pub fn mismatch_message_of(
    command: &str,
    actual: i32,
    expected: i32,
    stdout: &str,
    stderr: &str,
) -> (r: String)
    ensures
        r@ == spec_mismatch_message(command@, actual as int, expected as int, stdout@, stderr@),
{
    let mut r = String::from_str("**cmdrun error**: '");
    r.append(command);
    r.append("' returned exit code ");
    let a = i32_to_string(actual);
    r.append(a.as_str());
    r.append(" instead of ");
    let e = i32_to_string(expected);
    r.append(e.as_str());
    r.append(".\n");
    r.append(stdout);
    r.append("\n");
    r.append(stderr);
    r
}

} // verus!
