//! Verified text transformations shared by the formatter and the payload
//! parser: trimming whitespace, stripping trailing line breaks, and
//! rewriting line breaks into the two-character form.

use vstd::prelude::*;
use vstd::string::*;
use crate::chars::{is_ws_char, ws_char, is_break_char, break_char};

verus! {

/// `s` without its trailing whitespace characters.
pub open spec fn trim_end_ws(s: Seq<char>) -> Seq<char>
    decreases s.len(),
{
    if s.len() > 0 && is_ws_char(s.last()) {
        trim_end_ws(s.drop_last())
    } else {
        s
    }
}

/// `s` without its leading whitespace characters.
pub open spec fn trim_start_ws(s: Seq<char>) -> Seq<char>
    decreases s.len(),
{
    if s.len() > 0 && is_ws_char(s[0]) {
        trim_start_ws(s.skip(1))
    } else {
        s
    }
}

/// `s` without leading and trailing whitespace.
pub open spec fn trim_ws(s: Seq<char>) -> Seq<char> {
    trim_end_ws(trim_start_ws(s))
}

/// `s` without its trailing line-break characters.
pub open spec fn strip_end_breaks(s: Seq<char>) -> Seq<char>
    decreases s.len(),
{
    if s.len() > 0 && is_break_char(s.last()) {
        strip_end_breaks(s.drop_last())
    } else {
        s
    }
}

/// The two-character line terminator.
pub open spec fn crlf() -> Seq<char> {
    seq!['\r', '\n']
}

/// `s` with every line break (`\r\n` or a bare `\n`) rewritten to `\r\n`.
/// A carriage return that no line feed follows is left alone.
pub open spec fn normalize_breaks(s: Seq<char>) -> Seq<char>
    decreases s.len(),
{
    if s.len() == 0 {
        s
    } else if s.len() >= 2 && s[0] == '\r' && s[1] == '\n' {
        crlf() + normalize_breaks(s.skip(2))
    } else if s[0] == '\n' {
        crlf() + normalize_breaks(s.skip(1))
    } else {
        seq![s[0]] + normalize_breaks(s.skip(1))
    }
}

/// Remove trailing whitespace from a string.
pub fn trim_end_of(s: &str) -> (r: String)
    ensures
        r@ == trim_end_ws(s@),
{
    let n = s.unicode_len();
    let mut k = n;
    proof {
        assert(s@.subrange(0, k as int) =~= s@);
    }
    while 0 < k
        invariant_except_break
            k <= s@.len(),
            trim_end_ws(s@) == trim_end_ws(s@.subrange(0, k as int)),
        ensures
            k <= s@.len(),
            trim_end_ws(s@) == s@.subrange(0, k as int),
        decreases k,
    {
        let c = s.get_char(k - 1);
        if !ws_char(c) {
            proof {
                assert(s@.subrange(0, k as int).last() == c);
            }
            break;
        }
        proof {
            assert(s@.subrange(0, k as int).drop_last() =~= s@.subrange(0, k - 1 as int));
        }
        k = k - 1;
    }
    s.substring_char(0, k).to_owned()
}

/// Remove leading whitespace from a string.
pub fn trim_start_of(s: &str) -> (r: String)
    ensures
        r@ == trim_start_ws(s@),
{
    let n = s.unicode_len();
    let mut j: usize = 0;
    proof {
        assert(s@.subrange(0, s@.len() as int) =~= s@);
    }
    while j < n
        invariant_except_break
            n == s@.len(),
            j <= s@.len(),
            trim_start_ws(s@) == trim_start_ws(s@.subrange(j as int, s@.len() as int)),
        ensures
            j <= s@.len(),
            trim_start_ws(s@) == s@.subrange(j as int, s@.len() as int),
        decreases n - j,
    {
        let c = s.get_char(j);
        if !ws_char(c) {
            break;
        }
        proof {
            assert(s@.subrange(j as int, s@.len() as int).skip(1) =~= s@.subrange(
                (j + 1) as int,
                s@.len() as int,
            ));
        }
        j = j + 1;
    }
    s.substring_char(j, n).to_owned()
}

/// Remove leading and trailing whitespace from a string.
pub fn trim_of(s: &str) -> (r: String)
    ensures
        r@ == trim_ws(s@),
{
    let t = trim_start_of(s);
    trim_end_of(t.as_str())
}

/// Remove trailing line-break characters from a string.
pub fn strip_end_breaks_of(s: &str) -> (r: String)
    ensures
        r@ == strip_end_breaks(s@),
{
    let n = s.unicode_len();
    let mut k = n;
    proof {
        assert(s@.subrange(0, k as int) =~= s@);
    }
    while 0 < k
        invariant_except_break
            k <= s@.len(),
            strip_end_breaks(s@) == strip_end_breaks(s@.subrange(0, k as int)),
        ensures
            k <= s@.len(),
            strip_end_breaks(s@) == s@.subrange(0, k as int),
        decreases k,
    {
        let c = s.get_char(k - 1);
        if !break_char(c) {
            proof {
                assert(s@.subrange(0, k as int).last() == c);
            }
            break;
        }
        proof {
            assert(s@.subrange(0, k as int).drop_last() =~= s@.subrange(0, k - 1 as int));
        }
        k = k - 1;
    }
    s.substring_char(0, k).to_owned()
}

/// Rewrite every line break of a string to the two-character form.
pub fn normalize_breaks_of(s: &str) -> (r: String)
    ensures
        r@ == normalize_breaks(s@),
{
    let n = s.unicode_len();
    let mut out = String::new();
    let mut i: usize = 0;
    proof {
        reveal_strlit("\r\n");
        assert("\r\n"@ =~= crlf());
        assert(s@.subrange(0, s@.len() as int) =~= s@);
        assert(out@ + normalize_breaks(s@) =~= normalize_breaks(s@));
    }
    while i < n
        invariant
            i <= s@.len(),
            n == s@.len(),
            "\r\n"@ == crlf(),
            normalize_breaks(s@) == out@ + normalize_breaks(s@.subrange(i as int, s@.len() as int)),
        decreases n - i,
    {
        let ghost rest = s@.subrange(i as int, s@.len() as int);
        let c = s.get_char(i);
        if c == '\r' && i + 1 < n && s.get_char(i + 1) == '\n' {
            proof {
                assert(rest.skip(2) =~= s@.subrange(i + 2 as int, s@.len() as int));
                assert(normalize_breaks(rest) == crlf() + normalize_breaks(rest.skip(2)));
            }
            out.append("\r\n");
            i = i + 2;
        } else if c == '\n' {
            proof {
                assert(rest.skip(1) =~= s@.subrange(i + 1 as int, s@.len() as int));
                assert(normalize_breaks(rest) == crlf() + normalize_breaks(rest.skip(1)));
            }
            out.append("\r\n");
            i = i + 1;
        } else {
            proof {
                assert(rest.skip(1) =~= s@.subrange(i + 1 as int, s@.len() as int));
                assert(!(rest.len() >= 2 && rest[0] == '\r' && rest[1] == '\n'));
                assert(normalize_breaks(rest) == seq![rest[0]] + normalize_breaks(rest.skip(1)));
            }
            let piece = s.substring_char(i, i + 1);
            proof {
                assert(piece@ =~= seq![rest[0]]);
            }
            out.append(piece);
            i = i + 1;
        }
        proof {
            assert(normalize_breaks(s@) == out@ + normalize_breaks(
                s@.subrange(i as int, s@.len() as int),
            ));
        }
    }
    proof {
        assert(s@.subrange(i as int, s@.len() as int).len() == 0);
        assert(normalize_breaks(s@) =~= out@);
    }
    out
}

} // verus!
