use smtp_honeypot::text::{
    eq_str, filter_printable_chars, filter_safe_display, safe_log_string, split_ws, trim_line_end,
    trim_matching,
};

#[test]
fn printable_filter_drops_control_characters() {
    assert_eq!(filter_printable_chars("abc"), "abc");
    assert_eq!(filter_printable_chars("a\u{1}b\u{2}c"), "abc");
    assert_eq!(filter_printable_chars("a\tb\r\nc d"), "a\tb\r\nc d");
    assert_eq!(filter_printable_chars("caf\u{e9}"), "caf");
    assert_eq!(filter_printable_chars(""), "");
}

#[test]
fn safe_display_replaces_instead_of_dropping() {
    assert_eq!(filter_safe_display("abc"), "abc");
    assert_eq!(filter_safe_display("a\u{1}b"), "a\u{fffd}b");
    assert_eq!(filter_safe_display("caf\u{e9}"), "caf\u{fffd}");
    assert_eq!(filter_safe_display("a\tb\nc"), "a\tb\nc");
}

#[test]
fn log_escape_exact_forms() {
    assert_eq!(safe_log_string("plain text"), "plain text");
    assert_eq!(safe_log_string("\0"), "\\0");
    assert_eq!(safe_log_string("\u{1}"), "\\x01");
    assert_eq!(safe_log_string("\u{b}"), "\\x0b");
    assert_eq!(safe_log_string("\u{c}"), "\\x0c");
    assert_eq!(safe_log_string("\u{1f}"), "\\x1f");
    assert_eq!(safe_log_string("\u{7f}"), "\\x7f");
    assert_eq!(safe_log_string("\u{e9}"), "\\u{e9}");
    assert_eq!(safe_log_string("\u{1f600}"), "\\u{1f600}");
    assert_eq!(safe_log_string("a\tb\r\n"), "a\tb\r\n");
    assert_eq!(safe_log_string("x\u{0}y\u{1}z"), "x\\0y\\x01z");
}

#[test]
fn split_on_ascii_whitespace() {
    let toks = split_ws("  MAIL   FROM:<a@b>  ");
    assert_eq!(toks, vec!["MAIL".to_string(), "FROM:<a@b>".to_string()]);
    assert_eq!(split_ws(""), Vec::<String>::new());
    assert_eq!(split_ws(" \t \r\n "), Vec::<String>::new());
    assert_eq!(split_ws("one"), vec!["one".to_string()]);
}

#[test]
fn trimming() {
    assert_eq!(trim_line_end("EHLO test\r\n"), "EHLO test");
    assert_eq!(trim_line_end("x  \t"), "x");
    assert_eq!(trim_line_end("   "), "");
    assert_eq!(trim_matching("<<a@b>", '<'), "a@b>");
    assert_eq!(trim_matching("a@b>>", '>'), "a@b");
    assert_eq!(trim_matching("<>", '<'), ">");
    assert_eq!(trim_matching("", '<'), "");
}

#[test]
fn string_equality_by_characters() {
    assert!(eq_str("abc", "abc"));
    assert!(!eq_str("abc", "abd"));
    assert!(!eq_str("abc", "ab"));
    assert!(eq_str("", ""));
}
