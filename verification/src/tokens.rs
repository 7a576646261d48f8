//! Whitespace tokenization of directive payloads.
//!
//! A payload is split on runs of whitespace into tokens; after a flag is
//! consumed, the remaining tokens are rejoined with single spaces. The
//! rejoining deliberately collapses interior whitespace runs, matching the
//! documented behaviour of flagged directives.

use vstd::prelude::*;
use vstd::string::*;
use crate::chars::{is_ws_char, ws_char};

verus! {

/// Length of the maximal non-whitespace prefix of `s`.
pub open spec fn token_end(s: Seq<char>) -> int
    decreases s.len(),
{
    if s.len() == 0 || is_ws_char(s[0]) {
        0
    } else {
        1 + token_end(s.skip(1))
    }
}

/// The non-whitespace prefix has a length between 0 and `s.len()`.
pub proof fn lemma_token_end_bounds(s: Seq<char>)
    ensures
        0 <= token_end(s) <= s.len(),
    decreases s.len(),
{
    if s.len() > 0 && !is_ws_char(s[0]) {
        lemma_token_end_bounds(s.skip(1));
    }
}

/// If the first `k` characters of `s` are not whitespace and the next one
/// is (or the string ends there), the token ends exactly at `k`.
pub proof fn lemma_token_end_value(s: Seq<char>, k: int)
    requires
        0 <= k <= s.len(),
        forall|i: int| 0 <= i < k ==> !is_ws_char(s[i]),
        k < s.len() ==> is_ws_char(s[k]),
    ensures
        token_end(s) == k,
    decreases s.len(),
{
    if k > 0 {
        assert(forall|i: int| 0 <= i < k - 1 ==> !is_ws_char(s.skip(1)[i]));
        lemma_token_end_value(s.skip(1), k - 1);
    }
}

/// The tokens of `s`: the maximal runs of non-whitespace characters,
/// in order.
pub open spec fn ws_tokens(s: Seq<char>) -> Seq<Seq<char>>
    decreases s.len(),
    via ws_tokens_decreases
{
    if s.len() == 0 {
        Seq::empty()
    } else if is_ws_char(s[0]) {
        ws_tokens(s.skip(1))
    } else {
        seq![s.subrange(0, token_end(s))] + ws_tokens(s.skip(token_end(s)))
    }
}

#[via_fn]
proof fn ws_tokens_decreases(s: Seq<char>) {
    if s.len() > 0 && !is_ws_char(s[0]) {
        lemma_token_end_bounds(s);
        lemma_token_end_bounds(s.skip(1));
    }
}

/// Split a string into its whitespace-separated tokens.
pub fn split_ws(s: &str) -> (toks: Vec<String>)
    ensures
        toks.deep_view() == ws_tokens(s@),
{
    let n = s.unicode_len();
    let mut toks: Vec<String> = Vec::new();
    let mut i: usize = 0;
    proof {
        assert(s@.subrange(0, s@.len() as int) =~= s@);
        assert(toks.deep_view() + ws_tokens(s@) =~= ws_tokens(s@));
    }
    while i < n
        invariant
            n == s@.len(),
            i <= n,
            ws_tokens(s@) == toks.deep_view() + ws_tokens(s@.subrange(i as int, n as int)),
        decreases n - i,
    {
        let ghost rest = s@.subrange(i as int, n as int);
        let c = s.get_char(i);
        if ws_char(c) {
            proof {
                assert(rest.skip(1) =~= s@.subrange((i + 1) as int, n as int));
            }
            i = i + 1;
        } else {
            let start = i;
            let mut j = i + 1;
            while j < n
                invariant_except_break
                    n == s@.len(),
                    start < j <= n,
                    forall|q: int| start <= q < j ==> !is_ws_char(s@[q]),
                ensures
                    start < j <= n,
                    forall|q: int| start <= q < j ==> !is_ws_char(s@[q]),
                    j < n ==> is_ws_char(s@[j as int]),
                decreases n - j,
            {
                let c2 = s.get_char(j);
                if ws_char(c2) {
                    break;
                }
                j = j + 1;
            }
            let tok = s.substring_char(start, j).to_owned();
            proof {
                let k = j - start;
                assert(forall|q: int| 0 <= q < k ==> rest[q] == s@[start + q]);
                lemma_token_end_value(rest, k);
                assert(rest.subrange(0, k) =~= s@.subrange(start as int, j as int));
                assert(rest.skip(k) =~= s@.subrange(j as int, n as int));
                assert(ws_tokens(rest) == seq![tok@] + ws_tokens(s@.subrange(j as int, n as int)));
            }
            let ghost old_dv = toks.deep_view();
            toks.push(tok);
            proof {
                assert(toks.deep_view() =~= old_dv.push(tok@));
                assert(old_dv + (seq![tok@] + ws_tokens(s@.subrange(j as int, n as int)))
                    =~= toks.deep_view() + ws_tokens(s@.subrange(j as int, n as int)));
            }
            i = j;
        }
    }
    proof {
        assert(s@.subrange(i as int, n as int).len() == 0);
        assert(toks.deep_view() + ws_tokens(s@.subrange(i as int, n as int)) =~= toks.deep_view());
    }
    toks
}

/// The tokens joined with single spaces between them.
pub open spec fn join_spaced(toks: Seq<Seq<char>>) -> Seq<char>
    decreases toks.len(),
{
    if toks.len() == 0 {
        Seq::empty()
    } else if toks.len() == 1 {
        toks[0]
    } else {
        toks[0] + seq![' '] + join_spaced(toks.skip(1))
    }
}

/// Appending one token to a join appends a space and the token.
pub proof fn lemma_join_spaced_push(toks: Seq<Seq<char>>, t: Seq<char>)
    ensures
        join_spaced(toks.push(t)) == if toks.len() == 0 {
            t
        } else {
            join_spaced(toks) + seq![' '] + t
        },
    decreases toks.len(),
{
    let p = toks.push(t);
    if toks.len() == 0 {
        assert(p.len() == 1);
        assert(p[0] == t);
    } else if toks.len() == 1 {
        assert(p.len() == 2);
        assert(p.skip(1) =~= seq![t]);
        assert(join_spaced(p.skip(1)) == t);
        assert(join_spaced(p) == p[0] + seq![' '] + t);
        assert(p[0] == toks[0]);
        assert(join_spaced(toks) == toks[0]);
    } else {
        assert(p.skip(1) =~= toks.skip(1).push(t));
        lemma_join_spaced_push(toks.skip(1), t);
        assert(join_spaced(p) == p[0] + seq![' '] + join_spaced(toks.skip(1).push(t)));
        assert(toks.skip(1).len() > 0);
        assert(join_spaced(p) == toks[0] + seq![' '] + (join_spaced(toks.skip(1)) + seq![' ']
            + t));
        assert(join_spaced(toks) + seq![' '] + t == (toks[0] + seq![' '] + join_spaced(
            toks.skip(1),
        )) + seq![' '] + t);
        assert(toks[0] + seq![' '] + (join_spaced(toks.skip(1)) + seq![' '] + t) =~= (toks[0]
            + seq![' '] + join_spaced(toks.skip(1))) + seq![' '] + t);
    }
}

/// Join the tokens from position `from` on with single spaces.
pub fn join_tokens_from(toks: &Vec<String>, from: usize) -> (r: String)
    requires
        from <= toks.len(),
    ensures
        r@ == join_spaced(toks.deep_view().skip(from as int)),
{
    let ghost dv = toks.deep_view();
    let mut r = String::new();
    let mut i = from;
    proof {
        assert(dv.skip(from as int).subrange(0, 0) =~= Seq::<Seq<char>>::empty());
    }
    while i < toks.len()
        invariant
            from <= i <= toks.len(),
            dv == toks.deep_view(),
            dv.len() == toks.len(),
            r@ == join_spaced(dv.skip(from as int).subrange(0, i - from)),
        decreases toks.len() - i,
    {
        proof {
            assert(dv.skip(from as int).subrange(0, i - from + 1) =~= dv.skip(
                from as int,
            ).subrange(0, i - from).push(dv[i as int]));
            lemma_join_spaced_push(dv.skip(from as int).subrange(0, i - from), dv[i as int]);
            reveal_strlit(" ");
            assert(" "@ =~= seq![' ']);
        }
        if i > from {
            r.append(" ");
        }
        let t = &toks[i];
        r.append(t.as_str());
        proof {
            if i > from {
                assert(r@ =~= join_spaced(dv.skip(from as int).subrange(0, i - from)) + seq![' ']
                    + dv[i as int]);
            } else {
                assert(dv.skip(from as int).subrange(0, 0).len() == 0);
            }
        }
        i = i + 1;
    }
    proof {
        assert(dv.skip(from as int).subrange(0, i - from) =~= dv.skip(from as int));
    }
    r
}

} // verus!
