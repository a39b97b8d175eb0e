use vstd::prelude::*;
use vstd::string::StringExecFns;

use crate::text::{escaped_seq, filter_printable_chars, filtered_printable, safe_log_string};

verus! {

/// One plain log line: timestamp, peer address and message, space
/// separated, newline terminated.
pub open spec fn log_line_of(
    timestamp: Seq<char>,
    client_addr: Seq<char>,
    message: Seq<char>,
) -> Seq<char> {
    timestamp + seq![' '] + client_addr + seq![' '] + message + seq!['\n']
}

/// Builds the plain log line written to the log file.
pub fn format_log_line(timestamp: &str, client_addr: &str, message: &str) -> (r: String)
    ensures
        r@ == log_line_of(timestamp@, client_addr@, message@),
{
    let mut out = timestamp.to_owned();
    out.push(' ');
    out.append(client_addr);
    out.push(' ');
    out.append(message);
    out.push('\n');
    proof {
        assert(out@ =~= log_line_of(timestamp@, client_addr@, message@));
    }
    out
}

/// Builds the log line shown on the console: verbatim in raw mode,
/// otherwise with the message and then the whole line display-filtered.
pub fn format_log_display(timestamp: &str, client_addr: &str, message: &str, raw: bool) -> (r:
    String)
    ensures
        r@ == (if raw {
            log_line_of(timestamp@, client_addr@, message@)
        } else {
            filtered_printable(
                log_line_of(timestamp@, client_addr@, filtered_printable(message@)),
            )
        }),
{
    if raw {
        format_log_line(timestamp, client_addr, message)
    } else {
        let safe = filter_printable_chars(message);
        let line = format_log_line(timestamp, client_addr, safe.as_str());
        filter_printable_chars(line.as_str())
    }
}

/// The horizontal rule above and below a verbose capture.
pub open spec fn separator_of() -> Seq<char> {
    Seq::new(60, |i: int| '\u{2500}')
}

fn separator_line() -> (r: String)
    ensures
        r@ == separator_of(),
{
    let mut out = String::new();
    let mut i: usize = 0;
    while i < 60
        invariant
            i <= 60,
            out@ == separator_of().take(i as int),
        decreases 60 - i,
    {
        out.push('\u{2500}');
        proof {
            assert(out@ =~= separator_of().take(i + 1));
        }
        i = i + 1;
    }
    proof {
        assert(separator_of().take(60) =~= separator_of());
    }
    out
}

/// One framed verbose capture: rules around a heading line and the
/// details, with a blank line after the closing rule.
pub open spec fn verbose_block_of(
    timestamp: Seq<char>,
    client_addr: Seq<char>,
    title: Seq<char>,
    details: Seq<char>,
) -> Seq<char> {
    separator_of() + seq!['\n'] + timestamp + " VERBOSE: "@ + client_addr + seq![' '] + title
        + seq!['\n'] + separator_of() + seq!['\n'] + details + seq!['\n'] + separator_of() + seq![
        '\n',
        '\n',
    ]
}

/// Builds one verbose capture block around already-prepared details.
pub fn format_verbose_block(timestamp: &str, client_addr: &str, title: &str, details: &str) -> (r:
    String)
    ensures
        r@ == verbose_block_of(timestamp@, client_addr@, title@, details@),
{
    let sep = separator_line();
    let mut out = sep.clone();
    out.push('\n');
    out.append(timestamp);
    out.append(" VERBOSE: ");
    out.append(client_addr);
    out.push(' ');
    out.append(title);
    out.push('\n');
    out.append(sep.as_str());
    out.push('\n');
    out.append(details);
    out.push('\n');
    out.append(sep.as_str());
    out.push('\n');
    out.push('\n');
    proof {
        assert(out@ =~= verbose_block_of(timestamp@, client_addr@, title@, details@));
    }
    out
}

/// Builds the verbose block written to the log file: details always
/// escaped for safe logging.
pub fn format_verbose_file(timestamp: &str, client_addr: &str, title: &str, details: &str) -> (r:
    String)
    ensures
        r@ == verbose_block_of(timestamp@, client_addr@, title@, escaped_seq(details@)),
{
    let safe = safe_log_string(details);
    format_verbose_block(timestamp, client_addr, title, safe.as_str())
}

/// Builds the verbose block shown on the console: verbatim in raw mode,
/// otherwise with escaped details and the whole block display-filtered.
pub fn format_verbose_display(
    timestamp: &str,
    client_addr: &str,
    title: &str,
    details: &str,
    raw: bool,
) -> (r: String)
    ensures
        r@ == (if raw {
            verbose_block_of(timestamp@, client_addr@, title@, details@)
        } else {
            filtered_printable(
                verbose_block_of(timestamp@, client_addr@, title@, escaped_seq(details@)),
            )
        }),
{
    if raw {
        format_verbose_block(timestamp, client_addr, title, details)
    } else {
        let block = format_verbose_file(timestamp, client_addr, title, details);
        filter_printable_chars(block.as_str())
    }
}

} // verus!
