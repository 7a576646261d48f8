//! The command specification a directive payload denotes.
//!
//! A payload is inspected for one optional leading flag: `--strict`
//! (expect exit code 0), `--expect-return-code N` (expect exit code `N`),
//! or a short form `-N`. Whatever follows the flag, rejoined with single
//! spaces, is the literal shell command. A payload with no leading flag is
//! the shell command itself, trimmed, with no exit-code expectation. A bad
//! flag never aborts anything: it becomes a visible error message.

use vstd::prelude::*;
use vstd::string::*;
use crate::chars::is_ws_char;
use crate::tokens::{ws_tokens, token_end, join_spaced, lemma_token_end_bounds};
use crate::text::trim_ws;
use crate::numbers::parsed_i32;
use crate::messages::{msg_no_return_code, msg_unrecognized_flag, msg_short_form};

verus! {

/// What a payload asks for: either a command to run, with an optional
/// exit-code expectation, or an error text to splice into the document.
pub enum ParsedDirective {
    Run { cmd: Seq<char>, expected: Option<int> },
    Fail { msg: Seq<char> },
}

/// The part of a token after its last `-`, the digits of a short-form
/// exit-code flag. A token without a dash is returned whole.
pub open spec fn after_last_dash(s: Seq<char>) -> Seq<char>
    decreases s.len(),
{
    if s.len() == 0 {
        s
    } else if s.last() == '-' {
        Seq::empty()
    } else {
        after_last_dash(s.drop_last()).push(s.last())
    }
}

/// The command specification of a payload, exactly as the parser decides
/// it. `payload` is the directive text after the keyword.
pub open spec fn parse_payload(payload: Seq<char>) -> ParsedDirective {
    let toks = ws_tokens(payload);
    if toks.len() == 0 || toks[0][0] != '-' {
        ParsedDirective::Run { cmd: trim_ws(payload), expected: None }
    } else {
        let first = toks[0];
        if first.len() >= 2 && first[1] == '-' {
            if first == "--strict"@ {
                ParsedDirective::Run { cmd: join_spaced(toks.skip(1)), expected: Some(0) }
            } else if first == "--expect-return-code"@ {
                if toks.len() >= 2 && parsed_i32(toks[1]) is Some {
                    ParsedDirective::Run {
                        cmd: join_spaced(toks.skip(2)),
                        expected: Some(parsed_i32(toks[1])->0),
                    }
                } else {
                    ParsedDirective::Fail { msg: msg_no_return_code() }
                }
            } else {
                ParsedDirective::Fail { msg: msg_unrecognized_flag(first) }
            }
        } else {
            if parsed_i32(after_last_dash(first)) is Some {
                ParsedDirective::Run {
                    cmd: join_spaced(toks.skip(1)),
                    expected: Some(parsed_i32(after_last_dash(first))->0),
                }
            } else {
                ParsedDirective::Fail { msg: msg_short_form(first) }
            }
        }
    }
}

/// Every token of a tokenization is nonempty.
pub proof fn lemma_ws_tokens_nonempty(s: Seq<char>)
    ensures
        forall|i: int| 0 <= i < ws_tokens(s).len() ==> (#[trigger] ws_tokens(s)[i]).len() > 0,
    decreases s.len(),
{
    if s.len() == 0 {
    } else if is_ws_char(s[0]) {
        lemma_ws_tokens_nonempty(s.skip(1));
        assert(ws_tokens(s) == ws_tokens(s.skip(1)));
        assert forall|i: int| 0 <= i < ws_tokens(s).len() implies (#[trigger] ws_tokens(
            s,
        )[i]).len() > 0 by {
            assert(ws_tokens(s)[i] == ws_tokens(s.skip(1))[i]);
        }
    } else {
        lemma_token_end_bounds(s);
        lemma_token_end_bounds(s.skip(1));
        let k = token_end(s);
        let rest = s.skip(k);
        lemma_ws_tokens_nonempty(rest);
        assert(ws_tokens(s) == seq![s.subrange(0, k)] + ws_tokens(rest));
        assert forall|i: int| 0 <= i < ws_tokens(s).len() implies (#[trigger] ws_tokens(
            s,
        )[i]).len() > 0 by {
            if i == 0 {
                assert(ws_tokens(s)[0] == s.subrange(0, k));
            } else {
                assert(ws_tokens(s)[i] == ws_tokens(rest)[i - 1]);
            }
        }
    }
}

/// Find the suffix of a token after its last dash.
pub fn suffix_after_last_dash(s: &str) -> (r: String)
    ensures
        r@ == after_last_dash(s@),
{
    let n = s.unicode_len();
    let mut k = n;
    while 0 < k
        invariant_except_break
            n == s@.len(),
            k <= n,
            forall|q: int| k <= q < n ==> s@[q] != '-',
        ensures
            n == s@.len(),
            k <= n,
            forall|q: int| k <= q < n ==> s@[q] != '-',
            0 < k ==> s@[k - 1] == '-',
        decreases k,
    {
        let c = s.get_char(k - 1);
        if c == '-' {
            break;
        }
        k = k - 1;
    }
    proof {
        lemma_after_last_dash(s@, k as int);
    }
    s.substring_char(k, n).to_owned()
}

/// If no dash stands at or after position `k`, and a dash stands just
/// before it (or the string has none at all), the suffix after the last
/// dash is the part from `k` on.
proof fn lemma_after_last_dash(s: Seq<char>, k: int)
    requires
        0 <= k <= s.len(),
        forall|q: int| k <= q < s.len() ==> s[q] != '-',
        0 < k ==> s[k - 1] == '-',
    ensures
        after_last_dash(s) == s.subrange(k, s.len() as int),
    decreases s.len(),
{
    if s.len() == 0 {
        assert(s.subrange(0, 0) =~= s);
    } else if k == s.len() {
        assert(s.last() == '-');
        assert(s.subrange(k, s.len() as int) =~= Seq::<char>::empty());
    } else {
        assert(s.last() == s[s.len() - 1] && s.last() != '-');
        lemma_after_last_dash(s.drop_last(), k);
        assert(after_last_dash(s) == s.drop_last().subrange(k, s.len() - 1).push(s.last()));
        assert(s.drop_last().subrange(k, s.len() - 1).push(s.last()) =~= s.subrange(
            k,
            s.len() as int,
        ));
    }
}

} // verus!
