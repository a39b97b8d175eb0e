use smtp_honeypot::logfmt::{
    format_log_display, format_log_line, format_verbose_block, format_verbose_display,
    format_verbose_file,
};

#[test]
fn plain_log_line() {
    assert_eq!(
        format_log_line("2026-01-02 03:04:05.678", "1.2.3.4:5000", ">> EHLO test"),
        "2026-01-02 03:04:05.678 1.2.3.4:5000 >> EHLO test\n"
    );
}

#[test]
fn display_line_filters_unless_raw() {
    let raw = format_log_display("ts", "a:1", "x\u{1}y", true);
    assert_eq!(raw, "ts a:1 x\u{1}y\n");
    let filtered = format_log_display("ts", "a:1", "x\u{1}y", false);
    assert_eq!(filtered, "ts a:1 xy\n");
}

#[test]
fn verbose_block_layout() {
    let sep: String = "\u{2500}".repeat(60);
    let block = format_verbose_block("ts", "1.2.3.4:5", "MAIL FROM", "a@b");
    let expected = format!(
        "{}\n{} VERBOSE: {} {}\n{}\n{}\n{}\n\n",
        sep, "ts", "1.2.3.4:5", "MAIL FROM", sep, "a@b", sep
    );
    assert_eq!(block, expected);
}

#[test]
fn verbose_file_form_escapes_details() {
    let block = format_verbose_file("ts", "a:1", "EMAIL DATA", "x\u{0}y");
    assert!(block.contains("\nx\\0y\n"));
}

#[test]
fn verbose_display_filters_unless_raw() {
    let raw = format_verbose_display("ts", "a:1", "T", "ok", true);
    assert!(raw.contains("\nok\n"));
    // the separators are not printable ASCII, so the filtered form drops
    // them entirely
    let filtered = format_verbose_display("ts", "a:1", "T", "ok", false);
    assert!(!filtered.contains('\u{2500}'));
    assert!(filtered.contains("ts VERBOSE: a:1 T\n"));
}
