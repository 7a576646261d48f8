//! The public face of the preprocessor core.
//!
//! A directive is handled in three verified stages: [`CmdRun::parse_cmdrun`]
//! turns its payload into a command specification or an immediate error
//! text; the surrounding binary runs the shell and reports an
//! [`ExecutionResult`]; [`CmdRun::resolve_cmdrun`] applies the exit-code
//! policy and formatting to decide the replacement text. Only the shell
//! invocation itself stands outside the library.

use vstd::prelude::*;
use vstd::string::*;
use crate::directive::{
    ParsedDirective, parse_payload, after_last_dash, suffix_after_last_dash,
    lemma_ws_tokens_nonempty,
};
use crate::format::{Platform, spec_format_whitespace};
use crate::messages::{
    spec_error_message, spec_mismatch_message, msg_ended_early, error_message_of,
    mismatch_message_of,
};
use crate::numbers::{parsed_i32, parse_i32_str};
use crate::text::{trim_ws, trim_of, trim_end_of, strip_end_breaks_of, normalize_breaks_of};
use crate::tokens::{ws_tokens, join_spaced, split_ws, join_tokens_from};

verus! {

/// The preprocessor. It owns the verified directive logic; the binary
/// around it supplies the document traversal and the shell.
pub struct CmdRun;

/// What the parser asks the caller to do with one directive.
pub enum CommandStep {
    /// Run this shell command; `expected_code` carries the directive's
    /// exit-code assertion, if it made one.
    Execute { command: String, expected_code: Option<i32> },
    /// Do not run anything: the payload was malformed and this text
    /// replaces the directive.
    Rendered { message: String },
}

/// What the shell reported for one command.
pub struct ExecutionResult {
    /// The exit status, or nothing if the process was ended by a signal.
    pub exit_code: Option<i32>,
    /// Captured standard output, decoded to text.
    pub stdout: String,
    /// Captured standard error, decoded to text.
    pub stderr: String,
}

/// An optional machine integer as an optional mathematical one.
pub open spec fn code_opt_int(o: Option<i32>) -> Option<int> {
    match o {
        Some(v) => Some(v as int),
        None => None,
    }
}

/// The replacement text once a command has run: the exit-code policy.
/// Without an expectation any exit status is accepted; with one, a
/// mismatch becomes the mismatch report over the raw streams; a command
/// ended by a signal becomes an inline error.
pub open spec fn spec_resolve(
    cmd: Seq<char>,
    expected: Option<int>,
    exit_code: Option<int>,
    stdout: Seq<char>,
    stderr: Seq<char>,
    inline: bool,
    p: Platform,
) -> Seq<char> {
    match exit_code {
        None => spec_error_message(msg_ended_early(), cmd),
        Some(code) => match expected {
            Some(exp) => if code != exp {
                spec_mismatch_message(cmd, code, exp, stdout, stderr)
            } else {
                spec_format_whitespace(stdout, inline, p)
            },
            None => spec_format_whitespace(stdout, inline, p),
        },
    }
}

/// The full replacement text of one directive, given the payload and what
/// the shell reported. The execution report is ignored wherever the
/// payload alone decides.
pub open spec fn spec_replacement(
    payload: Seq<char>,
    exit_code: Option<int>,
    stdout: Seq<char>,
    stderr: Seq<char>,
    inline: bool,
    p: Platform,
) -> Seq<char> {
    match parse_payload(payload) {
        ParsedDirective::Fail { msg } => spec_error_message(msg, trim_ws(payload)),
        ParsedDirective::Run { cmd, expected } => spec_resolve(
            cmd,
            expected,
            exit_code,
            stdout,
            stderr,
            inline,
            p,
        ),
    }
}

impl CmdRun {
    /// The rewrite applies to the renderer producing web pages and no
    /// other.
    pub fn supports_renderer(&self, renderer: &str) -> (r: bool)
        ensures
            r == (renderer@ == "html"@),
    {
        let html = String::from_str("html");
        renderer.to_owned() == html
    }

    /// Render a directive failure as document text.
    pub fn cmdrun_error_message(message: &str, command: &str) -> (r: String)
        ensures
            r@ == spec_error_message(message@, command@),
    {
        error_message_of(message, command)
    }

    /// Normalize captured output for its placement: inline output is
    /// trimmed of trailing whitespace; non-empty block output ends with
    /// exactly one line terminator of the platform.
    pub fn format_whitespace(text: &str, inline: bool, platform: Platform) -> (r: String)
        ensures
            r@ == spec_format_whitespace(text@, inline, platform),
    {
        if inline {
            let t = trim_end_of(text);
            match platform {
                Platform::Posix => t,
                Platform::Windows => normalize_breaks_of(t.as_str()),
            }
        } else {
            let core = strip_end_breaks_of(text);
            if core.as_str().unicode_len() == 0 {
                proof {
                    assert(core@ =~= Seq::<char>::empty());
                }
                core
            } else {
                match platform {
                    Platform::Posix => {
                        proof {
                            reveal_strlit("\n");
                            assert("\n"@ =~= seq!['\n']);
                        }
                        let mut r = core;
                        r.append("\n");
                        r
                    },
                    Platform::Windows => {
                        proof {
                            reveal_strlit("\r\n");
                            assert("\r\n"@ =~= crate::text::crlf());
                        }
                        let mut r = normalize_breaks_of(core.as_str());
                        r.append("\r\n");
                        r
                    },
                }
            }
        }
    }

    /// Parse a directive payload into its command specification, or into
    /// the error text that replaces the directive when the flag is bad.
    pub fn parse_cmdrun(payload: &str) -> (r: CommandStep)
        ensures
            ({
                let p = parse_payload(payload@);
                match r {
                    CommandStep::Execute { command, expected_code } => p == (ParsedDirective::Run {
                        cmd: command@,
                        expected: code_opt_int(expected_code),
                    }),
                    CommandStep::Rendered { message } => p matches ParsedDirective::Fail { msg }
                        && message@ == spec_error_message(msg, trim_ws(payload@)),
                }
            }),
    {
        let toks = split_ws(payload);
        proof {
            lemma_ws_tokens_nonempty(payload@);
        }
        if toks.len() == 0 {
            return CommandStep::Execute { command: trim_of(payload), expected_code: None };
        }
        let first = &toks[0];
        if first.as_str().get_char(0) != '-' {
            return CommandStep::Execute { command: trim_of(payload), expected_code: None };
        }
        let flen = first.as_str().unicode_len();
        if flen >= 2 && first.as_str().get_char(1) == '-' {
            let strict = String::from_str("--strict");
            if first.as_str().to_owned() == strict {
                return CommandStep::Execute {
                    command: join_tokens_from(&toks, 1),
                    expected_code: Some(0),
                };
            }
            let expect = String::from_str("--expect-return-code");
            if first.as_str().to_owned() == expect {
                if toks.len() >= 2 {
                    let second = &toks[1];
                    match parse_i32_str(second.as_str()) {
                        Some(code) => {
                            return CommandStep::Execute {
                                command: join_tokens_from(&toks, 2),
                                expected_code: Some(code),
                            };
                        },
                        None => {
                            let trimmed = trim_of(payload);
                            return CommandStep::Rendered {
                                message: Self::cmdrun_error_message(
                                    "No return code after '--expect-return-code'",
                                    trimmed.as_str(),
                                ),
                            };
                        },
                    }
                } else {
                    let trimmed = trim_of(payload);
                    return CommandStep::Rendered {
                        message: Self::cmdrun_error_message(
                            "No return code after '--expect-return-code'",
                            trimmed.as_str(),
                        ),
                    };
                }
            }
            let mut reason = String::from_str("Unrecognized cmdrun flag ");
            reason.append(first.as_str());
            let trimmed = trim_of(payload);
            return CommandStep::Rendered {
                message: Self::cmdrun_error_message(reason.as_str(), trimmed.as_str()),
            };
        }
        let suffix = suffix_after_last_dash(first.as_str());
        match parse_i32_str(suffix.as_str()) {
            Some(code) => CommandStep::Execute {
                command: join_tokens_from(&toks, 1),
                expected_code: Some(code),
            },
            None => {
                let mut reason = String::from_str("Unable to interpret short-form exit code ");
                reason.append(first.as_str());
                reason.append(" as a number");
                let trimmed = trim_of(payload);
                CommandStep::Rendered {
                    message: Self::cmdrun_error_message(reason.as_str(), trimmed.as_str()),
                }
            },
        }
    }

    /// Decide the replacement text once the shell has run a command.
    pub fn resolve_cmdrun(
        command: &str,
        expected_code: Option<i32>,
        result: &ExecutionResult,
        inline: bool,
        platform: Platform,
    ) -> (r: String)
        ensures
            r@ == spec_resolve(
                command@,
                code_opt_int(expected_code),
                code_opt_int(result.exit_code),
                result.stdout@,
                result.stderr@,
                inline,
                platform,
            ),
    {
        match result.exit_code {
            None => Self::cmdrun_error_message("Command was ended before completing", command),
            Some(code) => {
                match expected_code {
                    Some(exp) => {
                        if code != exp {
                            mismatch_message_of(
                                command,
                                code,
                                exp,
                                result.stdout.as_str(),
                                result.stderr.as_str(),
                            )
                        } else {
                            Self::format_whitespace(result.stdout.as_str(), inline, platform)
                        }
                    },
                    None => Self::format_whitespace(result.stdout.as_str(), inline, platform),
                }
            },
        }
    }
}

/// A command with no exit-code flag substitutes its formatted output
/// whatever its exit code was: the replacement is the same for any two
/// codes, and equals the formatted output.
pub proof fn lemma_no_flag_ignores_exit_code(
    payload: Seq<char>,
    code_a: int,
    code_b: int,
    stdout: Seq<char>,
    stderr: Seq<char>,
    inline: bool,
    p: Platform,
)
    requires
        ws_tokens(payload).len() == 0 || ws_tokens(payload)[0][0] != '-',
    ensures
        spec_replacement(payload, Some(code_a), stdout, stderr, inline, p) == spec_replacement(
            payload,
            Some(code_b),
            stdout,
            stderr,
            inline,
            p,
        ),
        spec_replacement(payload, Some(code_a), stdout, stderr, inline, p)
            == spec_format_whitespace(stdout, inline, p),
{
}

/// A directive under `--strict`, or under the short form `-0`, whose
/// command exits with a code other than zero, is replaced by exactly the
/// mismatch report over the raw output streams.
pub proof fn lemma_strict_mismatch(
    payload: Seq<char>,
    code: int,
    stdout: Seq<char>,
    stderr: Seq<char>,
    inline: bool,
    p: Platform,
)
    requires
        ws_tokens(payload).len() > 0,
        ws_tokens(payload)[0] == "--strict"@ || ws_tokens(payload)[0] == "-0"@,
        code != 0,
    ensures
        parse_payload(payload) == (ParsedDirective::Run {
            cmd: join_spaced(ws_tokens(payload).skip(1)),
            expected: Some(0int),
        }),
        spec_replacement(payload, Some(code), stdout, stderr, inline, p) == spec_mismatch_message(
            join_spaced(ws_tokens(payload).skip(1)),
            code,
            0,
            stdout,
            stderr,
        ),
{
    let first = ws_tokens(payload)[0];
    if first == "--strict"@ {
        reveal_strlit("--strict");
        assert(first.len() == 8);
        assert(first[0] == '-' && first[1] == '-');
    } else {
        reveal_strlit("-0");
        reveal_strlit("--strict");
        reveal_strlit("--expect-return-code");
        assert(first.len() == 2);
        assert(first[0] == '-' && first[1] == '0');
        assert(first.drop_last() =~= seq!['-']);
        assert(after_last_dash(seq!['-']) =~= Seq::<char>::empty());
        assert(after_last_dash(first) =~= Seq::<char>::empty().push('0'));
        assert(after_last_dash(first) =~= seq!['0']);
        let ds = after_last_dash(first);
        assert(ds[0] == '0');
        assert(crate::numbers::all_digits(ds));
        assert(crate::numbers::digits_val(ds.drop_last()) == 0);
        assert(crate::numbers::digits_val(ds) == 0);
        assert(parsed_i32(ds) == Some(0int));
    }
}

} // verus!
