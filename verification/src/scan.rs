//! Locating directives in document text.
//!
//! A directive is the marker `<!--`, optional spaces, the keyword
//! `cmdrun` and one space, a payload, and the closing `-->`. The payload
//! is the shortest run of characters, none of them a line feed, that
//! reaches a closing delimiter. A block directive further requires a line
//! break right after the delimiter (optionally preceded by a carriage
//! return) and owns it. The scanner finds the leftmost directive at or
//! after a position, as a non-greedy leftmost pattern search would.

use vstd::prelude::*;
use vstd::string::*;

verus! {

/// The opening of a directive: `<!--`, then spaces, then `cmdrun `;
/// `start` is its first character and `pstart` the payload's.
pub open spec fn head_match(t: Seq<char>, start: int, pstart: int) -> bool {
    &&& 0 <= start
    &&& start + 11 <= pstart <= t.len()
    &&& t[start] == '<'
    &&& t[start + 1] == '!'
    &&& t[start + 2] == '-'
    &&& t[start + 3] == '-'
    &&& (forall|k: int| start + 4 <= k < pstart - 7 ==> t[k] == ' ')
    &&& t[pstart - 7] == 'c'
    &&& t[pstart - 6] == 'm'
    &&& t[pstart - 5] == 'd'
    &&& t[pstart - 4] == 'r'
    &&& t[pstart - 3] == 'u'
    &&& t[pstart - 2] == 'n'
    &&& t[pstart - 1] == ' '
}

/// The closing of a directive at `e`: `-->`, and for a block directive a
/// line break right after it.
pub open spec fn close_match(t: Seq<char>, e: int, block: bool) -> bool {
    &&& 0 <= e
    &&& e + 3 <= t.len()
    &&& t[e] == '-'
    &&& t[e + 1] == '-'
    &&& t[e + 2] == '>'
    &&& block ==> ((e + 4 <= t.len() && t[e + 3] == '\n') || (e + 5 <= t.len() && t[e + 3] == '\r'
        && t[e + 4] == '\n'))
}

/// How many characters the closing occupies, the consumed line break
/// included.
pub open spec fn close_len(t: Seq<char>, e: int, block: bool) -> int
    recommends
        close_match(t, e, block),
{
    if !block {
        3
    } else if e + 4 <= t.len() && t[e + 3] == '\n' {
        4
    } else {
        5
    }
}

/// The payload holds no line feed.
pub open spec fn payload_ok(t: Seq<char>, pstart: int, e: int) -> bool {
    forall|k: int| pstart <= k < e ==> t[k] != '\n'
}

/// A whole directive: head at `start`, payload from `pstart` to `e`,
/// closing at `e`.
pub open spec fn match_from(t: Seq<char>, start: int, pstart: int, e: int, block: bool) -> bool {
    &&& head_match(t, start, pstart)
    &&& pstart <= e
    &&& payload_ok(t, pstart, e)
    &&& close_match(t, e, block)
}

/// One located directive occurrence.
pub struct DirectiveMatch {
    /// Index of the `<` of the marker.
    pub start: usize,
    /// Index of the payload's first character.
    pub payload_start: usize,
    /// Index one past the payload's last character.
    pub payload_end: usize,
    /// Index one past the whole directive, the consumed line break of a
    /// block directive included.
    pub end: usize,
}

impl DirectiveMatch {
    /// The scanner's contract for a hit at or after `from`: a directive,
    /// its payload the shortest that reaches a closing, and no directive
    /// beginning earlier.
    pub open spec fn describes(&self, t: Seq<char>, from: int, block: bool) -> bool {
        &&& from <= self.start
        &&& match_from(t, self.start as int, self.payload_start as int, self.payload_end as int, block)
        &&& self.end == self.payload_end + close_len(t, self.payload_end as int, block)
        &&& (forall|e2: int|
            self.payload_start <= e2 < self.payload_end ==> !close_match(t, e2, block))
        &&& (forall|s2: int, p2: int, e2: int|
            from <= s2 < self.start ==> !match_from(t, s2, p2, e2, block))
    }
}

/// Try to read a directive beginning exactly at `start`.
fn try_match_at(text: &str, start: usize, block: bool) -> (r: Option<DirectiveMatch>)
    requires
        start <= text@.len(),
    ensures
        match r {
            Some(m) => {
                &&& m.start == start
                &&& match_from(text@, start as int, m.payload_start as int, m.payload_end as int, block)
                &&& m.end == m.payload_end + close_len(text@, m.payload_end as int, block)
                &&& (forall|e2: int|
                    m.payload_start <= e2 < m.payload_end ==> !close_match(text@, e2, block))
            },
            None => forall|p2: int, e2: int| !match_from(text@, start as int, p2, e2, block),
        },
{
    let ghost t = text@;
    let n = text.unicode_len();
    if n - start < 11 {
        return None;
    }
    if text.get_char(start) != '<' || text.get_char(start + 1) != '!' || text.get_char(start + 2)
        != '-' || text.get_char(start + 3) != '-' {
        return None;
    }
    let mut q = start + 4;
    while q < n
        invariant_except_break
            t == text@,
            n == t.len(),
            start + 4 <= q <= n,
            forall|k: int| start + 4 <= k < q ==> t[k] == ' ',
        ensures
            start + 4 <= q <= n,
            forall|k: int| start + 4 <= k < q ==> t[k] == ' ',
            q == n || t[q as int] != ' ',
        decreases n - q,
    {
        if text.get_char(q) != ' ' {
            break;
        }
        q = q + 1;
    }
    if n - q < 7 {
        proof {
            assert forall|p2: int, e2: int| !match_from(t, start as int, p2, e2, block) by {
                if head_match(t, start as int, p2) {
                    assert(p2 - 7 == q) by {
                        if p2 - 7 < q {
                            assert(t[p2 - 7] == ' ');
                        }
                        if p2 - 7 > q {
                            assert(t[q as int] == ' ');
                        }
                    }
                }
            }
        }
        return None;
    }
    if text.get_char(q) != 'c' || text.get_char(q + 1) != 'm' || text.get_char(q + 2) != 'd'
        || text.get_char(q + 3) != 'r' || text.get_char(q + 4) != 'u' || text.get_char(q + 5)
        != 'n' || text.get_char(q + 6) != ' ' {
        proof {
            assert forall|p2: int, e2: int| !match_from(t, start as int, p2, e2, block) by {
                if head_match(t, start as int, p2) {
                    assert(p2 - 7 == q) by {
                        if p2 - 7 < q {
                            assert(t[p2 - 7] == ' ');
                        }
                        if p2 - 7 > q {
                            assert(t[q as int] == ' ');
                        }
                    }
                }
            }
        }
        return None;
    }
    let p = q + 7;
    proof {
        assert(head_match(t, start as int, p as int));
        assert forall|p2: int| head_match(t, start as int, p2) implies p2 == p as int by {
            if p2 - 7 < q {
                assert(t[p2 - 7] == ' ');
            }
            if p2 - 7 > q {
                assert(t[q as int] == ' ');
            }
        }
    }
    let mut e = p;
    loop
        invariant
            t == text@,
            n == t.len(),
            p <= e <= n,
            head_match(t, start as int, p as int),
            forall|p2: int| head_match(t, start as int, p2) ==> p2 == p as int,
            payload_ok(t, p as int, e as int),
            forall|e2: int| p <= e2 < e ==> !close_match(t, e2, block),
        decreases n - e,
    {
        if n - e >= 3 {
            if text.get_char(e) == '-' && text.get_char(e + 1) == '-' && text.get_char(e + 2)
                == '>' {
                if !block {
                    return Some(
                        DirectiveMatch {
                            start,
                            payload_start: p,
                            payload_end: e,
                            end: e + 3,
                        },
                    );
                }
                if n - e >= 4 && text.get_char(e + 3) == '\n' {
                    return Some(
                        DirectiveMatch {
                            start,
                            payload_start: p,
                            payload_end: e,
                            end: e + 4,
                        },
                    );
                }
                if n - e >= 5 && text.get_char(e + 3) == '\r' && text.get_char(e + 4) == '\n' {
                    return Some(
                        DirectiveMatch {
                            start,
                            payload_start: p,
                            payload_end: e,
                            end: e + 5,
                        },
                    );
                }
            }
        }
        proof {
            assert(!close_match(t, e as int, block));
        }
        if e >= n {
            proof {
                assert forall|p2: int, e2: int| !match_from(t, start as int, p2, e2, block) by {
                    if match_from(t, start as int, p2, e2, block) {
                        assert(p2 == p as int);
                        assert(e2 + 3 <= n);
                        assert(e2 < e);
                    }
                }
            }
            return None;
        }
        let c = text.get_char(e);
        if c == '\n' {
            proof {
                assert forall|p2: int, e2: int| !match_from(t, start as int, p2, e2, block) by {
                    if match_from(t, start as int, p2, e2, block) {
                        assert(p2 == p as int);
                        if e2 > e {
                            assert(t[e as int] != '\n');
                        }
                    }
                }
            }
            return None;
        }
        e = e + 1;
    }
}

/// Find the leftmost directive that begins at or after `from`, with the
/// shortest payload that reaches a closing delimiter.
pub fn find_directive(text: &str, from: usize, block: bool) -> (r: Option<DirectiveMatch>)
    requires
        from <= text@.len(),
    ensures
        match r {
            Some(m) => m.describes(text@, from as int, block),
            None => forall|s2: int, p2: int, e2: int|
                from <= s2 ==> !match_from(text@, s2, p2, e2, block),
        },
{
    let ghost t = text@;
    let n = text.unicode_len();
    let mut s = from;
    while s < n
        invariant_except_break
            t == text@,
            n == t.len(),
            from <= s <= n,
            forall|s2: int, p2: int, e2: int|
                from <= s2 < s ==> !match_from(t, s2, p2, e2, block),
        ensures
            forall|s2: int, p2: int, e2: int|
                from <= s2 < s ==> !match_from(t, s2, p2, e2, block),
            s == n,
        decreases n - s,
    {
        match try_match_at(text, s, block) {
            Some(m) => {
                return Some(m);
            },
            None => {},
        }
        s = s + 1;
    }
    proof {
        assert forall|s2: int, p2: int, e2: int|
            from <= s2 implies !match_from(t, s2, p2, e2, block) by {
            if match_from(t, s2, p2, e2, block) {
                assert(s2 + 11 <= p2 <= n);
            }
        }
    }
    None
}

} // verus!
