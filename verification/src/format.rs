//! Output formatting rules and the properties proved of them.
//!
//! Captured output is normalized according to where the directive stood:
//! inline output loses its trailing whitespace, block output ends with
//! exactly one line terminator. On the platform family whose convention is
//! the two-character terminator, every line break is also rewritten.

use vstd::prelude::*;
use vstd::string::*;
use crate::chars::{is_ws_char, is_break_char};
use crate::text::{trim_end_ws, strip_end_breaks, normalize_breaks, crlf};

verus! {

/// The platform family the rewritten document is meant for, selected once
/// at startup. It decides the shell and the line-ending convention.
#[derive(Clone, Copy)]
pub enum Platform {
    /// Line breaks are `\n` and commands run through `sh -c`.
    Posix,
    /// Line breaks are `\r\n` and commands run through `cmd /C`.
    Windows,
}

/// The command interpreter of a platform family.
pub open spec fn spec_shell_program(p: Platform) -> Seq<char> {
    match p {
        Platform::Posix => "sh"@,
        Platform::Windows => "cmd"@,
    }
}

/// The interpreter flag that passes a literal command string.
pub open spec fn spec_shell_flag(p: Platform) -> Seq<char> {
    match p {
        Platform::Posix => "-c"@,
        Platform::Windows => "/C"@,
    }
}

impl Platform {
    /// The command interpreter to launch for this family.
    pub fn shell_program(&self) -> (r: String)
        ensures
            r@ == spec_shell_program(*self),
    {
        match self {
            Platform::Posix => String::from_str("sh"),
            Platform::Windows => String::from_str("cmd"),
        }
    }

    /// The flag under which the interpreter takes the command text.
    pub fn shell_flag(&self) -> (r: String)
        ensures
            r@ == spec_shell_flag(*self),
    {
        match self {
            Platform::Posix => String::from_str("-c"),
            Platform::Windows => String::from_str("/C"),
        }
    }
}

/// `s` with its line breaks rewritten to the platform convention.
/// Captured output already uses `\n`, so on the first family this is the
/// identity.
pub open spec fn normalized_for(s: Seq<char>, p: Platform) -> Seq<char> {
    match p {
        Platform::Posix => s,
        Platform::Windows => normalize_breaks(s),
    }
}

/// The platform's line terminator.
pub open spec fn terminator(p: Platform) -> Seq<char> {
    match p {
        Platform::Posix => seq!['\n'],
        Platform::Windows => crlf(),
    }
}

/// What the formatter returns: inline output is trimmed of trailing
/// whitespace; block output, when not empty, ends with exactly one
/// terminator however many trailing blank lines the command printed.
pub open spec fn spec_format_whitespace(s: Seq<char>, inline: bool, p: Platform) -> Seq<char> {
    if inline {
        normalized_for(trim_end_ws(s), p)
    } else {
        let core = strip_end_breaks(s);
        if core.len() == 0 {
            Seq::empty()
        } else {
            normalized_for(core, p) + terminator(p)
        }
    }
}

/// Trimming leaves no trailing whitespace.
pub proof fn lemma_trim_end_no_trailing_ws(s: Seq<char>)
    ensures
        trim_end_ws(s).len() > 0 ==> !is_ws_char(trim_end_ws(s).last()),
    decreases s.len(),
{
    if s.len() > 0 && is_ws_char(s.last()) {
        lemma_trim_end_no_trailing_ws(s.drop_last());
    }
}

/// Stripping leaves no trailing line break.
pub proof fn lemma_strip_no_trailing_break(s: Seq<char>)
    ensures
        strip_end_breaks(s).len() > 0 ==> !is_break_char(strip_end_breaks(s).last()),
    decreases s.len(),
{
    if s.len() > 0 && is_break_char(s.last()) {
        lemma_strip_no_trailing_break(s.drop_last());
    }
}

/// A string without trailing whitespace is its own trim.
pub proof fn lemma_trim_end_fixed(s: Seq<char>)
    requires
        s.len() > 0 ==> !is_ws_char(s.last()),
    ensures
        trim_end_ws(s) == s,
{
}

/// Rewriting line breaks keeps a final character that is not a line feed.
pub proof fn lemma_normalize_last(s: Seq<char>)
    requires
        s.len() > 0,
        s.last() != '\n',
    ensures
        normalize_breaks(s).len() > 0,
        normalize_breaks(s).last() == s.last(),
    decreases s.len(),
{
    if s.len() >= 2 && s[0] == '\r' && s[1] == '\n' {
        assert(s.skip(2).len() > 0) by {
            assert(s.last() != '\n');
        }
        assert(s.skip(2).last() == s.last());
        lemma_normalize_last(s.skip(2));
    } else if s[0] == '\n' {
        assert(s.len() >= 2);
        assert(s.skip(1).last() == s.last());
        lemma_normalize_last(s.skip(1));
    } else {
        if s.len() == 1 {
            assert(s.skip(1).len() == 0);
            assert(normalize_breaks(s.skip(1)) == Seq::<char>::empty());
            assert(normalize_breaks(s) =~= seq![s[0]]);
        } else {
            assert(s.skip(1).last() == s.last());
            lemma_normalize_last(s.skip(1));
        }
    }
}

/// Inline formatting never leaves trailing whitespace, however the command
/// output ended.
pub proof fn lemma_inline_no_trailing_ws(s: Seq<char>, p: Platform)
    ensures
        spec_format_whitespace(s, true, p).len() > 0 ==> !is_ws_char(
            spec_format_whitespace(s, true, p).last(),
        ),
{
    let t = trim_end_ws(s);
    lemma_trim_end_no_trailing_ws(s);
    match p {
        Platform::Posix => {},
        Platform::Windows => {
            if t.len() > 0 {
                lemma_normalize_last(t);
            }
        },
    }
}

/// Non-empty block output ends with exactly one line terminator, however
/// many trailing blank lines the command printed: the final characters are
/// one terminator, and the character before it is not a line break.
pub proof fn lemma_block_single_terminator(s: Seq<char>, p: Platform)
    ensures
        ({
            let r = spec_format_whitespace(s, false, p);
            r.len() > 0 ==> match p {
                Platform::Posix => r.len() >= 2 && r.last() == '\n' && !is_break_char(
                    r[r.len() - 2],
                ),
                Platform::Windows => r.len() >= 3 && r.last() == '\n' && r[r.len() - 2] == '\r'
                    && !is_break_char(r[r.len() - 3]),
            }
        }),
{
    let core = strip_end_breaks(s);
    let r = spec_format_whitespace(s, false, p);
    lemma_strip_no_trailing_break(s);
    if core.len() > 0 {
        match p {
            Platform::Posix => {
                assert(r == core + seq!['\n']);
                assert(r[r.len() - 2] == core.last());
            },
            Platform::Windows => {
                lemma_normalize_last(core);
                let nc = normalize_breaks(core);
                assert(r == nc + crlf());
                assert(r.len() == nc.len() + 2);
                assert(r[r.len() - 1] == '\n');
                assert(r[r.len() - 2] == '\r');
                assert(r[r.len() - 3] == nc.last());
            },
        }
    }
}

/// The first character the rewriting produces: a line feed only ever
/// appears behind a carriage return.
pub proof fn lemma_normalize_first(s: Seq<char>)
    requires
        s.len() > 0,
    ensures
        normalize_breaks(s).len() > 0,
        normalize_breaks(s)[0] == if s[0] == '\n' {
            '\r'
        } else {
            s[0]
        },
    decreases s.len(),
{
}

/// Rewriting line breaks twice gives the same text as rewriting them once.
pub proof fn lemma_normalize_idempotent(s: Seq<char>)
    ensures
        normalize_breaks(normalize_breaks(s)) == normalize_breaks(s),
    decreases s.len(),
{
    if s.len() == 0 {
    } else if s.len() >= 2 && s[0] == '\r' && s[1] == '\n' {
        let x = normalize_breaks(s.skip(2));
        lemma_normalize_idempotent(s.skip(2));
        assert(normalize_breaks(s) == crlf() + x);
        let w = crlf() + x;
        assert(w.len() >= 2 && w[0] == '\r' && w[1] == '\n');
        assert(w.skip(2) =~= x);
        assert(normalize_breaks(w) == crlf() + normalize_breaks(x));
    } else if s[0] == '\n' {
        let x = normalize_breaks(s.skip(1));
        lemma_normalize_idempotent(s.skip(1));
        assert(normalize_breaks(s) == crlf() + x);
        let w = crlf() + x;
        assert(w.len() >= 2 && w[0] == '\r' && w[1] == '\n');
        assert(w.skip(2) =~= x);
        assert(normalize_breaks(w) == crlf() + normalize_breaks(x));
    } else {
        let c = s[0];
        let x = normalize_breaks(s.skip(1));
        lemma_normalize_idempotent(s.skip(1));
        assert(normalize_breaks(s) == seq![c] + x);
        let w = seq![c] + x;
        assert(w[0] == c && c != '\n');
        if s.len() == 1 {
            assert(x =~= Seq::<char>::empty());
            assert(w.len() == 1);
            assert(w.skip(1) =~= x);
            assert(normalize_breaks(w) == seq![c] + normalize_breaks(x));
        } else {
            lemma_normalize_first(s.skip(1));
            if c == '\r' {
                assert(s[1] != '\n');
                assert(x[0] == if s.skip(1)[0] == '\n' {
                    '\r'
                } else {
                    s.skip(1)[0]
                });
                assert(x[0] != '\n');
            }
            assert(!(w.len() >= 2 && w[0] == '\r' && w[1] == '\n'));
            assert(w.skip(1) =~= x);
            assert(normalize_breaks(w) == seq![c] + normalize_breaks(x));
        }
    }
}

/// Formatting an already formatted inline result changes nothing: trimming
/// is idempotent, and so is the line-break rewriting.
pub proof fn lemma_inline_format_idempotent(s: Seq<char>, p: Platform)
    ensures
        spec_format_whitespace(spec_format_whitespace(s, true, p), true, p)
            == spec_format_whitespace(s, true, p),
{
    let t = trim_end_ws(s);
    lemma_trim_end_no_trailing_ws(s);
    match p {
        Platform::Posix => {
            lemma_trim_end_fixed(t);
        },
        Platform::Windows => {
            let nt = normalize_breaks(t);
            if t.len() > 0 {
                lemma_normalize_last(t);
                assert(!is_ws_char(nt.last()));
            }
            lemma_trim_end_fixed(nt);
            lemma_normalize_idempotent(t);
        },
    }
}

} // verus!
