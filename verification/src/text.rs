use vstd::prelude::*;
use vstd::string::StrSliceExecFns;

verus! {

/// Relies on std's `String::push`: appends one character at the end.
pub assume_specification[ String::push ](s: &mut String, c: char)
    ensures
        final(s)@ == old(s)@ + seq![c],
;

/// ASCII whitespace: space, tab, line feed, form feed, carriage return.
pub open spec fn is_space_char(c: char) -> bool {
    c == ' ' || c == '\t' || c == '\n' || c == '\u{c}' || c == '\r'
}

/// ASCII upper-casing of one character; everything outside `a..=z` is kept.
pub open spec fn upper_char(c: char) -> char {
    if 'a' <= c && c <= 'z' {
        (((c as u8) - 32) as char)
    } else {
        c
    }
}

/// ASCII upper-casing of a whole sequence.
pub open spec fn upper_seq(s: Seq<char>) -> Seq<char> {
    Seq::new(s.len(), |i: int| upper_char(s[i]))
}

fn char_to_upper(c: char) -> (r: char)
    ensures
        r == upper_char(c),
{
    if 'a' <= c && c <= 'z' {
        (((c as u8) - 32) as char)
    } else {
        c
    }
}

/// True when `tok`, upper-cased, is exactly the keyword `kw`.
pub fn matches_keyword(tok: &str, kw: &str) -> (r: bool)
    ensures
        r == (upper_seq(tok@) == kw@),
{
    let n = tok.unicode_len();
    if n != kw.unicode_len() {
        proof {
            assert(upper_seq(tok@).len() != kw@.len());
        }
        return false;
    }
    let mut i: usize = 0;
    while i < n
        invariant
            i <= n,
            n == tok@.len(),
            n == kw@.len(),
            forall|j: int| 0 <= j < i ==> upper_char(tok@[j]) == kw@[j],
        decreases n - i,
    {
        if char_to_upper(tok.get_char(i)) != kw.get_char(i) {
            proof {
                assert(upper_seq(tok@)[i as int] != kw@[i as int]);
            }
            return false;
        }
        i = i + 1;
    }
    proof {
        assert(upper_seq(tok@) =~= kw@);
    }
    true
}

/// True when the first `prefix.len()` characters of `s`, upper-cased, are
/// exactly `prefix`.
pub fn upper_starts_with(s: &str, prefix: &str) -> (r: bool)
    ensures
        r == (s@.len() >= prefix@.len() && upper_seq(s@).take(prefix@.len() as int) == prefix@),
{
    let n = s.unicode_len();
    let p = prefix.unicode_len();
    if n < p {
        return false;
    }
    let mut i: usize = 0;
    while i < p
        invariant
            i <= p,
            p <= n,
            n == s@.len(),
            p == prefix@.len(),
            forall|j: int| 0 <= j < i ==> upper_char(s@[j]) == prefix@[j],
        decreases p - i,
    {
        if char_to_upper(s.get_char(i)) != prefix.get_char(i) {
            proof {
                assert(upper_seq(s@).take(p as int)[i as int] != prefix@[i as int]);
            }
            return false;
        }
        i = i + 1;
    }
    proof {
        assert(upper_seq(s@).take(p as int) =~= prefix@);
    }
    true
}

/// Characters kept by the display filter: printable ASCII plus ASCII
/// whitespace (space, tab, line feed, form feed, carriage return).
pub open spec fn is_printable_char(c: char) -> bool {
    ('!' <= c && c <= '~') || c == ' ' || c == '\t' || c == '\n' || c == '\u{c}' || c == '\r'
}

/// The subsequence of `s` made of its printable characters, in order.
pub open spec fn filtered_printable(s: Seq<char>) -> Seq<char>
    decreases s.len(),
{
    if s.len() == 0 {
        Seq::<char>::empty()
    } else if is_printable_char(s.last()) {
        filtered_printable(s.drop_last()).push(s.last())
    } else {
        filtered_printable(s.drop_last())
    }
}

/// Keeps only printable ASCII and ASCII whitespace; every other character
/// is removed.
pub fn filter_printable_chars(input: &str) -> (r: String)
    ensures
        r@ == filtered_printable(input@),
{
    let n = input.unicode_len();
    let mut out = String::new();
    let mut i: usize = 0;
    while i < n
        invariant
            i <= n,
            n == input@.len(),
            out@ == filtered_printable(input@.take(i as int)),
        decreases n - i,
    {
        let c = input.get_char(i);
        proof {
            assert(input@.take(i + 1).drop_last() =~= input@.take(i as int));
            assert(input@.take(i + 1).last() == input@[i as int]);
        }
        if ('!' <= c && c <= '~') || c == ' ' || c == '\t' || c == '\n' || c == '\u{c}' || c
            == '\r' {
            out.push(c);
        }
        i = i + 1;
    }
    proof {
        assert(input@.take(n as int) =~= input@);
    }
    out
}

/// Length of the leading run of non-whitespace characters.
pub open spec fn token_len(s: Seq<char>) -> nat
    decreases s.len(),
{
    if s.len() == 0 || is_space_char(s[0]) {
        0
    } else {
        1 + token_len(s.skip(1))
    }
}

pub proof fn lemma_token_len_le(s: Seq<char>)
    ensures
        token_len(s) <= s.len(),
    decreases s.len(),
{
    if s.len() > 0 && !is_space_char(s[0]) {
        lemma_token_len_le(s.skip(1));
    }
}

/// `token_len` is exactly the first whitespace position (or the length).
pub proof fn lemma_token_len_eq(s: Seq<char>, m: int)
    requires
        0 <= m <= s.len(),
        forall|k: int| 0 <= k < m ==> !is_space_char(s[k]),
        m == s.len() || is_space_char(s[m]),
    ensures
        token_len(s) == m,
    decreases s.len(),
{
    if m > 0 {
        let t = s.skip(1);
        assert(forall|k: int| 0 <= k < m - 1 ==> t[k] == s[k + 1]);
        if m < s.len() {
            assert(t[m - 1] == s[m]);
        }
        lemma_token_len_eq(t, m - 1);
    }
}

/// The whitespace-separated tokens of `s`, in order, without the separators.
pub open spec fn tokens_of(s: Seq<char>) -> Seq<Seq<char>>
    decreases s.len(),
    via tokens_of_decreases
{
    if s.len() == 0 {
        Seq::<Seq<char>>::empty()
    } else if is_space_char(s[0]) {
        tokens_of(s.skip(1))
    } else {
        seq![s.take(token_len(s) as int)] + tokens_of(s.skip(token_len(s) as int))
    }
}

#[via_fn]
proof fn tokens_of_decreases(s: Seq<char>) {
    if s.len() > 0 && !is_space_char(s[0]) {
        assert(token_len(s) == 1 + token_len(s.skip(1)));
        lemma_token_len_le(s);
    }
}

/// Splitting off a complete first token: if the first `m` characters are the
/// token and a separator (or the end) follows, the token list starts with it.
proof fn lemma_tokens_head(s: Seq<char>, m: int)
    requires
        0 < m <= s.len(),
        forall|k: int| 0 <= k < m ==> !is_space_char(s[k]),
        m == s.len() || is_space_char(s[m]),
    ensures
        tokens_of(s) == seq![s.take(m)] + tokens_of(s.skip(m)),
{
    lemma_token_len_eq(s, m);
}

/// Whether a character is ASCII whitespace.
pub fn is_space_x(c: char) -> (r: bool)
    ensures
        r == is_space_char(c),
{
    c == ' ' || c == '\t' || c == '\n' || c == '\u{c}' || c == '\r'
}

/// Splits a line on ASCII whitespace, discarding empty fragments.
pub fn split_ws(s: &str) -> (r: Vec<String>)
    ensures
        r.deep_view() == tokens_of(s@),
{
    let n = s.unicode_len();
    let mut r: Vec<String> = Vec::new();
    let mut i: usize = 0;
    proof {
        assert(s@.skip(0) =~= s@);
        assert(r.deep_view() + tokens_of(s@) =~= tokens_of(s@));
    }
    while i < n
        invariant
            i <= n,
            n == s@.len(),
            r.deep_view() + tokens_of(s@.skip(i as int)) == tokens_of(s@),
        decreases n - i,
    {
        if is_space_x(s.get_char(i)) {
            proof {
                assert(s@.skip(i as int)[0] == s@[i as int]);
                assert(s@.skip(i as int).skip(1) =~= s@.skip(i + 1));
            }
            i = i + 1;
        } else {
            let start = i;
            let mut j = i + 1;
            while j < n && !is_space_x(s.get_char(j))
                invariant
                    start < j <= n,
                    n == s@.len(),
                    forall|k: int| start <= k < j ==> !is_space_char(s@[k]),
                decreases n - j,
            {
                j = j + 1;
            }
            let tok = s.substring_char(start, j).to_owned();
            let ghost dv = r.deep_view();
            r.push(tok);
            proof {
                assert(r.deep_view() =~= dv.push(tok@));
                let rest = s@.skip(start as int);
                assert(forall|k: int| 0 <= k < j - start ==> rest[k] == s@[k + start]);
                if j < n {
                    assert(rest[j - start] == s@[j as int]);
                }
                lemma_tokens_head(rest, j - start);
                assert(rest.take(j - start) =~= s@.subrange(start as int, j as int));
                assert(rest.skip(j - start) =~= s@.skip(j as int));
                assert(dv.push(tok@) + tokens_of(s@.skip(j as int)) =~= dv + tokens_of(
                    s@.skip(start as int),
                ));
            }
            i = j;
        }
    }
    proof {
        assert(s@.skip(n as int) =~= Seq::<char>::empty());
        assert(r.deep_view() =~= tokens_of(s@));
    }
    r
}

/// Character-wise string equality.
pub fn eq_str(a: &str, b: &str) -> (r: bool)
    ensures
        r == (a@ == b@),
{
    let n = a.unicode_len();
    if n != b.unicode_len() {
        return false;
    }
    let mut i: usize = 0;
    while i < n
        invariant
            i <= n,
            n == a@.len(),
            n == b@.len(),
            forall|j: int| 0 <= j < i ==> a@[j] == b@[j],
        decreases n - i,
    {
        if a.get_char(i) != b.get_char(i) {
            return false;
        }
        i = i + 1;
    }
    proof {
        assert(a@ =~= b@);
    }
    true
}

/// `s` with its trailing ASCII whitespace removed.
pub open spec fn trimmed_end(s: Seq<char>) -> Seq<char>
    decreases s.len(),
{
    if s.len() > 0 && is_space_char(s.last()) {
        trimmed_end(s.drop_last())
    } else {
        s
    }
}

/// Removes trailing ASCII whitespace (the line terminator among it).
pub fn trim_line_end(s: &str) -> (r: String)
    ensures
        r@ == trimmed_end(s@),
{
    let n = s.unicode_len();
    let mut k = n;
    proof {
        assert(s@.take(n as int) =~= s@);
    }
    while k > 0 && is_space_x(s.get_char(k - 1))
        invariant
            k <= n,
            n == s@.len(),
            trimmed_end(s@) == trimmed_end(s@.take(k as int)),
        decreases k,
    {
        proof {
            assert(s@.take(k as int).last() == s@[k - 1]);
            assert(s@.take(k as int).drop_last() =~= s@.take(k - 1));
        }
        k = k - 1;
    }
    proof {
        if k > 0 {
            assert(s@.take(k as int).last() == s@[k - 1]);
        }
        assert(trimmed_end(s@.take(k as int)) == s@.take(k as int));
        assert(s@.subrange(0, k as int) =~= s@.take(k as int));
    }
    s.substring_char(0, k).to_owned()
}

/// `s` with every leading copy of `c` removed.
pub open spec fn drop_leading(s: Seq<char>, c: char) -> Seq<char>
    decreases s.len(),
{
    if s.len() > 0 && s[0] == c {
        drop_leading(s.skip(1), c)
    } else {
        s
    }
}

/// `s` with every trailing copy of `c` removed.
pub open spec fn drop_trailing(s: Seq<char>, c: char) -> Seq<char>
    decreases s.len(),
{
    if s.len() > 0 && s.last() == c {
        drop_trailing(s.drop_last(), c)
    } else {
        s
    }
}

/// `s` with every leading and trailing copy of `c` removed.
pub open spec fn trim_char(s: Seq<char>, c: char) -> Seq<char> {
    drop_trailing(drop_leading(s, c), c)
}

/// Removes all leading and trailing copies of `c`.
pub fn trim_matching(s: &str, c: char) -> (r: String)
    ensures
        r@ == trim_char(s@, c),
{
    let n = s.unicode_len();
    let mut lo: usize = 0;
    proof {
        assert(s@.skip(0) =~= s@);
    }
    while lo < n && s.get_char(lo) == c
        invariant
            lo <= n,
            n == s@.len(),
            drop_leading(s@, c) == drop_leading(s@.skip(lo as int), c),
        decreases n - lo,
    {
        proof {
            assert(s@.skip(lo as int)[0] == s@[lo as int]);
            assert(s@.skip(lo as int).skip(1) =~= s@.skip(lo + 1));
        }
        lo = lo + 1;
    }
    proof {
        if lo < n {
            assert(s@.skip(lo as int)[0] == s@[lo as int]);
        } else {
            assert(s@.skip(lo as int) =~= Seq::<char>::empty());
        }
        assert(drop_leading(s@, c) == s@.skip(lo as int));
        assert(s@.subrange(lo as int, n as int) =~= s@.skip(lo as int));
    }
    let mut hi = n;
    while hi > lo && s.get_char(hi - 1) == c
        invariant
            lo <= hi <= n,
            n == s@.len(),
            drop_trailing(s@.skip(lo as int), c) == drop_trailing(
                s@.subrange(lo as int, hi as int),
                c,
            ),
        decreases hi,
    {
        proof {
            let t = s@.subrange(lo as int, hi as int);
            assert(t.last() == s@[hi - 1]);
            assert(t.drop_last() =~= s@.subrange(lo as int, hi - 1));
        }
        hi = hi - 1;
    }
    proof {
        let t = s@.subrange(lo as int, hi as int);
        if hi > lo {
            assert(t.last() == s@[hi - 1]);
        }
        assert(drop_trailing(t, c) == t);
    }
    s.substring_char(lo, hi).to_owned()
}

/// The two-character line terminator.
pub open spec fn crlf() -> Seq<char> {
    seq!['\r', '\n']
}

/// The lines joined by CRLF, with no terminator after the last.
pub open spec fn crlf_joined(lines: Seq<Seq<char>>) -> Seq<char>
    decreases lines.len(),
{
    if lines.len() == 0 {
        Seq::<char>::empty()
    } else if lines.len() == 1 {
        lines[0]
    } else {
        lines[0] + crlf() + crlf_joined(lines.skip(1))
    }
}

pub proof fn lemma_crlf_joined_push(lines: Seq<Seq<char>>, x: Seq<char>)
    requires
        lines.len() > 0,
    ensures
        crlf_joined(lines.push(x)) == crlf_joined(lines) + crlf() + x,
    decreases lines.len(),
{
    if lines.len() == 1 {
        assert(lines.push(x)[0] == lines[0]);
        assert(lines.push(x).skip(1) =~= seq![x]);
        assert(crlf_joined(seq![x]) == seq![x][0]);
    } else {
        assert(lines.push(x)[0] == lines[0]);
        assert(lines.push(x).skip(1) =~= lines.skip(1).push(x));
        lemma_crlf_joined_push(lines.skip(1), x);
    }
    assert(crlf_joined(lines.push(x)) =~= crlf_joined(lines) + crlf() + x);
}

/// Joins the lines with CRLF between consecutive lines.
pub fn join_crlf(lines: &Vec<String>) -> (r: String)
    ensures
        r@ == crlf_joined(lines.deep_view()),
{
    let ghost dv = lines.deep_view();
    let mut out = String::new();
    let mut i: usize = 0;
    while i < lines.len()
        invariant
            i <= lines@.len(),
            dv == lines.deep_view(),
            dv.len() == lines@.len(),
            out@ == crlf_joined(dv.take(i as int)),
        decreases lines@.len() - i,
    {
        if i > 0 {
            out.append("\r\n");
        }
        out.append(lines[i].as_str());
        proof {
            reveal_strlit("\r\n");
            assert("\r\n"@ =~= crlf());
            assert(dv[i as int] == lines@[i as int]@);
            assert(dv.take(i + 1) =~= dv.take(i as int).push(dv[i as int]));
            if i > 0 {
                lemma_crlf_joined_push(dv.take(i as int), dv[i as int]);
            } else {
                assert(dv.take(1) =~= seq![dv[0]]);
            }
        }
        i = i + 1;
    }
    proof {
        assert(dv.take(dv.len() as int) =~= dv);
    }
    out
}

/// One character of the lossy display form: kept if printable, otherwise
/// replaced by the replacement character.
pub open spec fn displayed_char(c: char) -> char {
    if is_printable_char(c) {
        c
    } else {
        '\u{fffd}'
    }
}

/// The lossy display form of a whole sequence.
pub open spec fn safe_displayed(s: Seq<char>) -> Seq<char> {
    Seq::new(s.len(), |i: int| displayed_char(s[i]))
}

/// Replaces every non-printable character by the replacement character.
pub fn filter_safe_display(input: &str) -> (r: String)
    ensures
        r@ == safe_displayed(input@),
{
    let n = input.unicode_len();
    let mut out = String::new();
    let mut i: usize = 0;
    while i < n
        invariant
            i <= n,
            n == input@.len(),
            out@ == safe_displayed(input@.take(i as int)),
        decreases n - i,
    {
        let c = input.get_char(i);
        if ('!' <= c && c <= '~') || c == ' ' || c == '\t' || c == '\n' || c == '\u{c}' || c
            == '\r' {
            out.push(c);
        } else {
            out.push('\u{fffd}');
        }
        proof {
            assert(out@ =~= safe_displayed(input@.take(i + 1)));
        }
        i = i + 1;
    }
    proof {
        assert(input@.take(n as int) =~= input@);
    }
    out
}

/// The lower-case hexadecimal digit for a value below sixteen.
pub open spec fn hex_digit(n: int) -> char {
    if n < 10 {
        (((0x30 + n) as u8) as char)
    } else {
        (((0x57 + n) as u8) as char)
    }
}

/// The lower-case hexadecimal form of `n`, most significant digit first,
/// without leading zeros (a single zero for zero itself).
pub open spec fn hex_of(n: nat) -> Seq<char>
    decreases n,
{
    if n < 16 {
        seq![hex_digit(n as int)]
    } else {
        hex_of(n / 16).push(hex_digit((n % 16) as int))
    }
}

fn hex_digit_x(n: u8) -> (r: char)
    requires
        n < 16,
    ensures
        r == hex_digit(n as int),
{
    if n < 10 {
        ((0x30 + n) as char)
    } else {
        ((0x57 + n) as char)
    }
}

fn push_hex(out: &mut String, n: u32)
    ensures
        final(out)@ == old(out)@ + hex_of(n as nat),
    decreases n,
{
    if n < 16 {
        out.push(hex_digit_x(n as u8));
    } else {
        push_hex(out, n / 16);
        out.push(hex_digit_x((n % 16) as u8));
    }
}

/// Control characters that the log escape writes as a two-digit hex escape.
pub open spec fn is_escaped_control(c: char) -> bool {
    ('\u{1}' <= c && c <= '\u{8}') || c == '\u{b}' || c == '\u{c}' || ('\u{e}' <= c && c
        <= '\u{1f}') || c == '\u{7f}'
}

/// The log escape of one character: NUL and low control characters become
/// backslash escapes, printable characters stay, anything else becomes a
/// braced Unicode escape.
pub open spec fn escaped_char(c: char) -> Seq<char> {
    if c == '\0' {
        seq!['\\', '0']
    } else if is_escaped_control(c) {
        seq!['\\', 'x', hex_digit((c as u32) as int / 16), hex_digit((c as u32) as int % 16)]
    } else if is_printable_char(c) {
        seq![c]
    } else {
        seq!['\\', 'u', '{'] + hex_of((c as u32) as nat) + seq!['}']
    }
}

/// The log escape of a whole sequence, character by character.
pub open spec fn escaped_seq(s: Seq<char>) -> Seq<char>
    decreases s.len(),
{
    if s.len() == 0 {
        Seq::<char>::empty()
    } else {
        escaped_seq(s.drop_last()) + escaped_char(s.last())
    }
}

/// Makes a string safe for one-line logging by escaping control and
/// non-printable characters.
pub fn safe_log_string(input: &str) -> (r: String)
    ensures
        r@ == escaped_seq(input@),
{
    let n = input.unicode_len();
    let mut out = String::new();
    let mut i: usize = 0;
    while i < n
        invariant
            i <= n,
            n == input@.len(),
            out@ == escaped_seq(input@.take(i as int)),
        decreases n - i,
    {
        let c = input.get_char(i);
        if c == '\0' {
            out.push('\\');
            out.push('0');
        } else if ('\u{1}' <= c && c <= '\u{8}') || c == '\u{b}' || c == '\u{c}' || ('\u{e}' <= c
            && c <= '\u{1f}') || c == '\u{7f}' {
            let u = c as u32;
            out.push('\\');
            out.push('x');
            out.push(hex_digit_x((u / 16) as u8));
            out.push(hex_digit_x((u % 16) as u8));
        } else if ('!' <= c && c <= '~') || c == ' ' || c == '\t' || c == '\n' || c == '\r' {
            out.push(c);
        } else {
            out.push('\\');
            out.push('u');
            out.push('{');
            push_hex(&mut out, c as u32);
            out.push('}');
        }
        proof {
            assert(input@.take(i + 1).drop_last() =~= input@.take(i as int));
            assert(input@.take(i + 1).last() == input@[i as int]);
            assert(out@ =~= escaped_seq(input@.take(i as int)) + escaped_char(input@[i as int]));
        }
        i = i + 1;
    }
    proof {
        assert(input@.take(n as int) =~= input@);
    }
    out
}

/// The part of `s` after its last `@`, if `s` holds one at all.
pub open spec fn domain_of(s: Seq<char>) -> Option<Seq<char>>
    decreases s.len(),
{
    if s.len() == 0 {
        None
    } else if s.last() == '@' {
        Some(Seq::<char>::empty())
    } else {
        match domain_of(s.drop_last()) {
            Some(d) => Some(d.push(s.last())),
            None => None,
        }
    }
}

proof fn lemma_domain_of_at(s: Seq<char>, p: int)
    requires
        0 <= p < s.len(),
        s[p] == '@',
        forall|k: int| p < k < s.len() ==> s[k] != '@',
    ensures
        domain_of(s) == Some(s.subrange(p + 1, s.len() as int)),
    decreases s.len(),
{
    if p == s.len() - 1 {
        assert(s.subrange(p + 1, s.len() as int) =~= Seq::<char>::empty());
    } else {
        let t = s.drop_last();
        assert(forall|k: int| p < k < t.len() ==> t[k] == s[k]);
        lemma_domain_of_at(t, p);
        assert(t.subrange(p + 1, t.len() as int).push(s.last()) =~= s.subrange(
            p + 1,
            s.len() as int,
        ));
    }
}

proof fn lemma_domain_of_none(s: Seq<char>)
    requires
        forall|k: int| 0 <= k < s.len() ==> s[k] != '@',
    ensures
        domain_of(s) is None,
    decreases s.len(),
{
    if s.len() > 0 {
        lemma_domain_of_none(s.drop_last());
    }
}

/// Returns the substring after the last `@`, or nothing when there is none.
pub fn domain_part(s: &str) -> (r: Option<String>)
    ensures
        match r {
            Some(d) => domain_of(s@) == Some(d@),
            None => domain_of(s@) is None,
        },
{
    let n = s.unicode_len();
    let mut k = n;
    while k > 0 && s.get_char(k - 1) != '@'
        invariant
            k <= n,
            n == s@.len(),
            forall|j: int| k <= j < n ==> s@[j] != '@',
        decreases k,
    {
        k = k - 1;
    }
    if k == 0 {
        proof {
            lemma_domain_of_none(s@);
        }
        None
    } else {
        proof {
            lemma_domain_of_at(s@, k - 1);
        }
        Some(s.substring_char(k, n).to_owned())
    }
}

} // verus!
