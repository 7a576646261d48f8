//! Verified decimal conversions: parsing a signed 32-bit exit code from a
//! flag token, and rendering an exit code into an error message.

use vstd::prelude::*;
use vstd::string::*;
use crate::chars::{is_digit_char, digit_val, digit_char};

verus! {

/// Every character of `s` is an ASCII decimal digit.
pub open spec fn all_digits(s: Seq<char>) -> bool {
    forall|i: int| 0 <= i < s.len() ==> is_digit_char(s[i])
}

/// The value of a digit string read in base ten.
pub open spec fn digits_val(s: Seq<char>) -> int
    decreases s.len(),
{
    if s.len() == 0 {
        0
    } else {
        digits_val(s.drop_last()) * 10 + digit_val(s.last())
    }
}

/// The signed 32-bit integer a token denotes, if any: an optional `+` or `-`
/// sign, then one or more digits, with the value within the 32-bit range.
/// This is the set of strings the standard integer parser accepts.
pub open spec fn parsed_i32(s: Seq<char>) -> Option<int> {
    if s.len() == 0 {
        None
    } else {
        let ds = if s[0] == '+' || s[0] == '-' {
            s.skip(1)
        } else {
            s
        };
        if ds.len() > 0 && all_digits(ds) {
            let v = if s[0] == '-' {
                -digits_val(ds)
            } else {
                digits_val(ds)
            };
            if -2147483648 <= v <= 2147483647 {
                Some(v)
            } else {
                None
            }
        } else {
            None
        }
    }
}

/// A digit string has a nonnegative value.
pub proof fn lemma_digits_val_nonneg(s: Seq<char>)
    requires
        all_digits(s),
    ensures
        digits_val(s) >= 0,
    decreases s.len(),
{
    if s.len() > 0 {
        lemma_digits_val_nonneg(s.drop_last());
    }
}

/// Extending a digit string never decreases its value.
pub proof fn lemma_digits_val_prefix(s: Seq<char>, k: int)
    requires
        all_digits(s),
        0 <= k <= s.len(),
    ensures
        digits_val(s) >= digits_val(s.subrange(0, k)),
    decreases s.len(),
{
    if k < s.len() {
        assert(s.drop_last().subrange(0, k) =~= s.subrange(0, k));
        lemma_digits_val_prefix(s.drop_last(), k);
        lemma_digits_val_nonneg(s.drop_last());
    } else {
        assert(s.subrange(0, k) =~= s);
    }
}

/// Parse a signed 32-bit integer exactly as [`parsed_i32`] describes.
pub fn parse_i32_str(s: &str) -> (r: Option<i32>)
    ensures
        match r {
            Some(v) => parsed_i32(s@) == Some(v as int),
            None => parsed_i32(s@) is None,
        },
{
    let n = s.unicode_len();
    if n == 0 {
        return None;
    }
    let c0 = s.get_char(0);
    let signed = c0 == '+' || c0 == '-';
    let start: usize = if signed {
        1
    } else {
        0
    };
    let ghost ds = if signed {
        s@.skip(1)
    } else {
        s@
    };
    if n == start {
        return None;
    }
    let mut m: u64 = 0;
    let mut i = start;
    while i < n
        invariant
            n == s@.len(),
            start <= i <= n,
            start < n,
            signed ==> start == 1,
            !signed ==> start == 0,
            signed == (s@[0] == '+' || s@[0] == '-'),
            ds == if signed {
                s@.skip(1)
            } else {
                s@
            },
            ds.len() == n - start,
            all_digits(ds.subrange(0, i - start)),
            m == digits_val(ds.subrange(0, i - start)),
            m <= 2147483648,
        decreases n - i,
    {
        let c = s.get_char(i);
        if !digit_char(c) {
            proof {
                assert(ds[i - start] == c);
            }
            return None;
        }
        let d: u64 = (c as u32 - 48) as u64;
        proof {
            assert(ds.subrange(0, i + 1 - start).drop_last() =~= ds.subrange(0, i - start));
            assert(ds.subrange(0, i + 1 - start).last() == c);
        }
        m = m * 10 + d;
        i = i + 1;
        if m > 2147483648 {
            proof {
                if all_digits(ds) {
                    lemma_digits_val_prefix(ds, i - start);
                }
            }
            return None;
        }
    }
    proof {
        assert(ds.subrange(0, i - start) =~= ds);
    }
    if c0 == '-' {
        let v: i64 = -(m as i64);
        return Some(v as i32);
    }
    if m == 2147483648 {
        return None;
    }
    Some(m as i32)
}

/// The character of one decimal digit value.
pub open spec fn digit_char_of(d: int) -> char {
    if d == 0 {
        '0'
    } else if d == 1 {
        '1'
    } else if d == 2 {
        '2'
    } else if d == 3 {
        '3'
    } else if d == 4 {
        '4'
    } else if d == 5 {
        '5'
    } else if d == 6 {
        '6'
    } else if d == 7 {
        '7'
    } else if d == 8 {
        '8'
    } else {
        '9'
    }
}

/// The decimal digit string of a nonnegative integer, most significant first.
pub open spec fn dec_digits(n: int) -> Seq<char>
    recommends
        n >= 0,
    decreases n,
{
    if n <= 9 {
        seq![digit_char_of(n)]
    } else {
        dec_digits(n / 10) + seq![digit_char_of(n % 10)]
    }
}

/// The decimal rendering of an integer: a minus sign for negative values,
/// then the digits.
pub open spec fn int_to_dec(n: int) -> Seq<char> {
    if n < 0 {
        seq!['-'] + dec_digits(-n)
    } else {
        dec_digits(n)
    }
}

/// The one-character string of one decimal digit value.
fn digit_str(d: u64) -> (r: String)
    requires
        d <= 9,
    ensures
        r@ == seq![digit_char_of(d as int)],
{
    if d == 0 {
        proof {
            reveal_strlit("0");
            assert("0"@ =~= seq![digit_char_of(0)]);
        }
        String::from_str("0")
    } else if d == 1 {
        proof {
            reveal_strlit("1");
            assert("1"@ =~= seq![digit_char_of(1)]);
        }
        String::from_str("1")
    } else if d == 2 {
        proof {
            reveal_strlit("2");
            assert("2"@ =~= seq![digit_char_of(2)]);
        }
        String::from_str("2")
    } else if d == 3 {
        proof {
            reveal_strlit("3");
            assert("3"@ =~= seq![digit_char_of(3)]);
        }
        String::from_str("3")
    } else if d == 4 {
        proof {
            reveal_strlit("4");
            assert("4"@ =~= seq![digit_char_of(4)]);
        }
        String::from_str("4")
    } else if d == 5 {
        proof {
            reveal_strlit("5");
            assert("5"@ =~= seq![digit_char_of(5)]);
        }
        String::from_str("5")
    } else if d == 6 {
        proof {
            reveal_strlit("6");
            assert("6"@ =~= seq![digit_char_of(6)]);
        }
        String::from_str("6")
    } else if d == 7 {
        proof {
            reveal_strlit("7");
            assert("7"@ =~= seq![digit_char_of(7)]);
        }
        String::from_str("7")
    } else if d == 8 {
        proof {
            reveal_strlit("8");
            assert("8"@ =~= seq![digit_char_of(8)]);
        }
        String::from_str("8")
    } else {
        proof {
            reveal_strlit("9");
            assert("9"@ =~= seq![digit_char_of(9)]);
        }
        String::from_str("9")
    }
}

/// Render the decimal digits of a nonnegative value.
fn dec_digits_of(v: u64) -> (r: String)
    ensures
        r@ == dec_digits(v as int),
    decreases v,
{
    if v <= 9 {
        digit_str(v)
    } else {
        let mut s = dec_digits_of(v / 10);
        let tail = digit_str(v % 10);
        s.append(tail.as_str());
        s
    }
}

/// Render a signed 32-bit integer in decimal.
pub fn i32_to_string(x: i32) -> (r: String)
    ensures
        r@ == int_to_dec(x as int),
{
    if x < 0 {
        let xi: i64 = x as i64;
        let mag: u64 = (-xi) as u64;
        let mut s = String::from_str("-");
        proof {
            reveal_strlit("-");
            assert("-"@ =~= seq!['-']);
        }
        let tail = dec_digits_of(mag);
        s.append(tail.as_str());
        s
    } else {
        dec_digits_of(x as u64)
    }
}

} // verus!
