//! The verified helpers under the parser: numbers, tokens, trimming.

use mdbook_cmdrun::numbers::{i32_to_string, parse_i32_str};
use mdbook_cmdrun::text::{trim_end_of, trim_of};
use mdbook_cmdrun::tokens::{join_tokens_from, split_ws};

#[test]
fn parse_accepts_signed_decimals() {
    assert_eq!(parse_i32_str("0"), Some(0));
    assert_eq!(parse_i32_str("42"), Some(42));
    assert_eq!(parse_i32_str("+42"), Some(42));
    assert_eq!(parse_i32_str("-42"), Some(-42));
    assert_eq!(parse_i32_str("007"), Some(7));
    assert_eq!(parse_i32_str("2147483647"), Some(2147483647));
    assert_eq!(parse_i32_str("-2147483648"), Some(-2147483648));
}

#[test]
fn parse_rejects_everything_else() {
    assert_eq!(parse_i32_str(""), None);
    assert_eq!(parse_i32_str("-"), None);
    assert_eq!(parse_i32_str("+"), None);
    assert_eq!(parse_i32_str("1a"), None);
    assert_eq!(parse_i32_str("a1"), None);
    assert_eq!(parse_i32_str(" 1"), None);
    assert_eq!(parse_i32_str("1 "), None);
    assert_eq!(parse_i32_str("2147483648"), None);
    assert_eq!(parse_i32_str("-2147483649"), None);
    assert_eq!(parse_i32_str("99999999999999999999"), None);
}

#[test]
fn renders_decimals() {
    assert_eq!(i32_to_string(0), "0");
    assert_eq!(i32_to_string(7), "7");
    assert_eq!(i32_to_string(250), "250");
    assert_eq!(i32_to_string(-1), "-1");
    assert_eq!(i32_to_string(2147483647), "2147483647");
    assert_eq!(i32_to_string(-2147483648), "-2147483648");
}

#[test]
fn splits_on_whitespace_runs() {
    assert_eq!(split_ws("  a \t bb\ncc  "), vec!["a", "bb", "cc"]);
    assert_eq!(split_ws(""), Vec::<String>::new());
    assert_eq!(split_ws(" \t\n"), Vec::<String>::new());
}

#[test]
fn joins_with_single_spaces() {
    let toks = split_ws("a   b  c");
    assert_eq!(join_tokens_from(&toks, 0), "a b c");
    assert_eq!(join_tokens_from(&toks, 1), "b c");
    assert_eq!(join_tokens_from(&toks, 2), "c");
    assert_eq!(join_tokens_from(&toks, 3), "");
}

#[test]
fn trims_unicode_whitespace() {
    assert_eq!(trim_of("  both ends \t"), "both ends");
    assert_eq!(trim_end_of("keep  left  \u{a0}"), "keep  left");
    assert_eq!(trim_of("\u{3000}wide\u{2028}"), "wide");
}
