use vstd::prelude::*;
use vstd::string::StrSliceExecFns;
use vstd::string::StringExecFns;

use crate::clone_strings;
use crate::commands::{process_next, process_reply, starttls_available};
use crate::ratelimiter::{admit_ok, next_hist, RateLimiter};
use crate::session::{reset_session, SessionModel, SmtpSession};
use crate::text::{crlf, crlf_joined, eq_str, matches_keyword, split_ws, tokens_of, trim_line_end,
    trimmed_end, upper_seq};
use crate::SmtpHoneypot;

verus! {

/// Mathematical model of one captured message.
#[verifier::ext_equal]
pub struct MessageModel {
    pub helo: Option<Seq<char>>,
    pub mail_from: Option<Seq<char>>,
    pub rcpt_to: Seq<Seq<char>>,
    pub data: Seq<Seq<char>>,
}

/// A completed message lifted out of a session when its body terminator
/// arrived: greeting name, envelope and body lines, exactly as collected.
pub struct CapturedMessage {
    pub helo: Option<String>,
    pub mail_from: Option<String>,
    pub rcpt_to: Vec<String>,
    pub data: Vec<String>,
}

impl View for CapturedMessage {
    type V = MessageModel;

    open spec fn view(&self) -> MessageModel {
        MessageModel {
            helo: match self.helo {
                Some(h) => Some(h@),
                None => None,
            },
            mail_from: match self.mail_from {
                Some(m) => Some(m@),
                None => None,
            },
            rcpt_to: self.rcpt_to.deep_view(),
            data: self.data.deep_view(),
        }
    }
}

/// What a session's transaction fields capture.
pub open spec fn capture_of(s: SessionModel) -> MessageModel {
    MessageModel { helo: s.helo, mail_from: s.mail_from, rcpt_to: s.rcpt_to, data: s.data }
}

/// What the connection loop must do after one line.
#[derive(Clone, Copy, Debug, PartialEq, Eq, Structural)]
pub enum LineAction {
    /// Keep reading lines on the same stream.
    Continue,
    /// Send the response, then close the connection.
    Close,
    /// Send the response, then perform the TLS handshake in place; on
    /// success mark the session, on failure close without downgrade.
    UpgradeTls,
}

/// The outcome of one input line: an optional response to write, the next
/// transport action, and a completed message to persist, if one finished.
pub struct LineOutcome {
    pub response: Option<String>,
    pub action: LineAction,
    pub completed: Option<CapturedMessage>,
}

/// The line dispatches QUIT, so the connection closes after the reply.
pub open spec fn line_closes(line: Seq<char>) -> bool {
    tokens_of(line).len() > 0 && upper_seq(tokens_of(line)[0]) == "QUIT"@
}

/// The line is an accepted STARTTLS, so the transport must be upgraded.
pub open spec fn line_upgrades(cfg: crate::CfgModel, s: SessionModel, line: Seq<char>) -> bool {
    tokens_of(line).len() > 0 && upper_seq(tokens_of(line)[0]) == "STARTTLS"@
        && starttls_available(cfg, s)
}

fn clone_opt_string(o: &Option<String>) -> (r: Option<String>)
    ensures
        r == *o,
{
    match o {
        Some(s) => Some(s.clone()),
        None => None,
    }
}

impl SmtpHoneypot {
    /// Drives the session one input line forward. While a body is being
    /// captured, a lone dot completes the message and resets the
    /// transaction, and any other line is collected verbatim; otherwise the
    /// line is a command and is dispatched, and the action says whether the
    /// loop goes on, closes after QUIT, or upgrades to TLS after an
    /// accepted STARTTLS.
    pub fn handle_line(&self, session: &mut SmtpSession, raw: &str) -> (out: LineOutcome)
        ensures
            ({
                let line = trimmed_end(raw@);
                let s0 = old(session)@;
                if s0.expecting_data {
                    if line == seq!['.'] {
                        &&& out.response matches Some(r) && r@ == "250 OK: Message accepted\r\n"@
                        &&& out.action == LineAction::Continue
                        &&& out.completed matches Some(m) && m@ == capture_of(s0)
                        &&& final(session)@ == reset_session(s0)
                    } else {
                        &&& out.response is None
                        &&& out.action == LineAction::Continue
                        &&& out.completed is None
                        &&& final(session)@ == (SessionModel { data: s0.data.push(line), ..s0 })
                    }
                } else {
                    &&& out.response matches Some(r) && r@ == process_reply(self@, s0, line)
                    &&& final(session)@ == process_next(self@, s0, line)
                    &&& out.completed is None
                    &&& out.action == (if line_closes(line) {
                        LineAction::Close
                    } else if line_upgrades(self@, s0, line) {
                        LineAction::UpgradeTls
                    } else {
                        LineAction::Continue
                    })
                }
            }),
    {
        let line = trim_line_end(raw);
        if session.expecting_data {
            let mut is_dot = false;
            if eq_str(line.as_str(), ".") {
                is_dot = true;
            }
            proof {
                reveal_strlit(".");
                assert("."@ =~= seq!['.']);
            }
            if is_dot {
                session.expecting_data = false;
                let msg = CapturedMessage {
                    helo: clone_opt_string(&session.helo),
                    mail_from: clone_opt_string(&session.mail_from),
                    rcpt_to: clone_strings(&session.rcpt_to),
                    data: clone_strings(&session.data),
                };
                proof {
                    assert(msg@ =~= capture_of(old(session)@));
                }
                session.reset();
                proof {
                    assert(session@ =~= reset_session(old(session)@));
                }
                LineOutcome {
                    response: Some("250 OK: Message accepted\r\n".to_owned()),
                    action: LineAction::Continue,
                    completed: Some(msg),
                }
            } else {
                session.data.push(line);
                proof {
                    assert(session@ =~= (SessionModel {
                        data: old(session)@.data.push(trimmed_end(raw@)),
                        ..old(session)@
                    }));
                }
                LineOutcome {
                    response: None,
                    action: LineAction::Continue,
                    completed: None,
                }
            }
        } else {
            let parts = split_ws(line.as_str());
            proof {
                assert(parts@.len() > 0 ==> parts.deep_view()[0] == parts@[0]@);
            }
            let closing = parts.len() > 0 && matches_keyword(parts[0].as_str(), "QUIT");
            let upgrading = parts.len() > 0 && matches_keyword(parts[0].as_str(), "STARTTLS")
                && session.starttls_enabled && !session.tls_active && self.tls_available;
            let response = self.process_command(line.as_str(), session);
            let action = if closing {
                LineAction::Close
            } else if upgrading {
                LineAction::UpgradeTls
            } else {
                LineAction::Continue
            };
            LineOutcome { response, action, completed: None }
        }
    }
}

/// How a freshly accepted connection is to be handled, decided from the
/// listening port and the configuration before any byte is exchanged.
pub struct ConnPlan {
    /// Perform the TLS handshake before any protocol line.
    pub implicit_tls: bool,
    /// The session may offer and accept STARTTLS.
    pub starttls_offered: bool,
    /// Delay before the greeting banner, in milliseconds.
    pub delay_ms: u64,
    /// A dedicated TLS port must fall back to plaintext for want of
    /// certificate material; worth a configuration warning.
    pub plaintext_fallback: bool,
}

impl SmtpHoneypot {
    /// Selects the handling mode for a connection accepted on `port`: the
    /// dedicated TLS port starts encrypted when material is configured and
    /// otherwise falls back to plaintext; the submission ports offer
    /// STARTTLS when it is enabled and material is configured; every other
    /// port is plaintext only. The banner delay never applies to a
    /// connection that starts encrypted.
    pub fn connection_plan(&self, port: u16) -> (p: ConnPlan)
        ensures
            p.implicit_tls == (port == 465 && self@.tls_available),
            p.plaintext_fallback == (port == 465 && !self@.tls_available),
            p.starttls_offered == ((port == 25 || port == 587) && self@.starttls
                && self@.tls_available),
            p.delay_ms == (if port == 465 && self@.tls_available {
                0u64
            } else {
                self@.banner_delay
            }),
    {
        let implicit_tls = port == 465 && self.tls_available;
        ConnPlan {
            implicit_tls,
            starttls_offered: (port == 25 || port == 587) && self.opt.starttls
                && self.tls_available,
            delay_ms: if implicit_tls {
                0
            } else {
                self.opt.banner_delay
            },
            plaintext_fallback: port == 465 && !self.tls_available,
        }
    }

    /// The greeting sent on connect, marked when the transport is
    /// encrypted.
    pub fn greeting_banner(&self, tls: bool) -> (r: String)
        ensures
            r@ == greeting_of(self@.banner, tls),
    {
        let mut r = "220 ".to_owned();
        r.append(self.opt.helo.as_str());
        r.append(" SMTP Honeypot");
        if tls {
            r.append(" (TLS)");
        }
        r.append("\r\n");
        proof {
            reveal_strlit("\r\n");
            assert("\r\n"@ =~= crlf());
            assert(r@ =~= greeting_of(self@.banner, tls));
        }
        r
    }
}

/// The greeting line: code, banner, the service name, and a TLS mark on an
/// encrypted transport.
pub open spec fn greeting_of(banner: Seq<char>, tls: bool) -> Seq<char> {
    "220 "@ + banner + " SMTP Honeypot"@ + (if tls {
        " (TLS)"@
    } else {
        Seq::<char>::empty()
    }) + crlf()
}

/// The single reply a rate-limited connection receives before it is
/// closed.
pub open spec fn rate_limit_reply() -> Seq<char> {
    "421 Too many connections from your IP\r\n"@
}

/// Admits or refuses a new connection from `addr` at time `now`. A refused
/// connection gets the rejection line to write best-effort before closing;
/// an admitted one gets no reply and its arrival is recorded.
pub fn admit_connection(limiter: &mut RateLimiter, addr: u64, now: u64) -> (r: Option<String>)
    requires
        old(limiter).wf(),
        now >= old(limiter).latest,
    ensures
        final(limiter).wf(),
        final(limiter).max_per_minute == old(limiter).max_per_minute,
        final(limiter).latest == now,
        r is None == admit_ok(
            old(limiter).history(addr),
            now,
            old(limiter).max_per_minute as nat,
        ),
        (match r {
            Some(msg) => msg@ == rate_limit_reply(),
            None => true,
        }),
        final(limiter).history(addr) == next_hist(
            old(limiter).history(addr),
            now,
            old(limiter).max_per_minute as nat,
        ),
        forall|a: u64| a != addr ==> final(limiter).history(a) == old(limiter).history(a),
{
    if limiter.check_and_add(addr, now) {
        None
    } else {
        Some("421 Too many connections from your IP\r\n".to_owned())
    }
}

/// The headers for one recipient list, one line per recipient, in order.
pub open spec fn rcpt_headers(rcpts: Seq<Seq<char>>) -> Seq<char>
    decreases rcpts.len(),
{
    if rcpts.len() == 0 {
        Seq::<char>::empty()
    } else {
        rcpt_headers(rcpts.drop_last()) + "X-Honeypot-RcptTo: "@ + rcpts.last() + crlf()
    }
}

/// The persisted artifact for one captured message: synthetic headers, a
/// blank line, then the body lines joined by CRLF.
pub open spec fn artifact_of(client: Seq<char>, date: Seq<char>, m: MessageModel) -> Seq<char> {
    "X-Honeypot-Client: "@ + client + crlf() + "X-Honeypot-Date: "@ + date + crlf() + (
    match m.helo {
        Some(h) => "X-Honeypot-HELO: "@ + h + crlf(),
        None => Seq::<char>::empty(),
    }) + (match m.mail_from {
        Some(f) => "X-Honeypot-MailFrom: "@ + f + crlf(),
        None => Seq::<char>::empty(),
    }) + rcpt_headers(m.rcpt_to) + crlf() + crlf_joined(m.data)
}

/// Renders the artifact text for a captured message. The caller supplies
/// the peer address and the wall-clock date as display strings.
pub fn build_artifact(client: &str, date: &str, msg: &CapturedMessage) -> (r: String)
    ensures
        r@ == artifact_of(client@, date@, msg@),
{
    let mut out = "X-Honeypot-Client: ".to_owned();
    out.append(client);
    out.append("\r\n");
    out.append("X-Honeypot-Date: ");
    out.append(date);
    out.append("\r\n");
    match &msg.helo {
        Some(h) => {
            out.append("X-Honeypot-HELO: ");
            out.append(h.as_str());
            out.append("\r\n");
        },
        None => {},
    }
    match &msg.mail_from {
        Some(f) => {
            out.append("X-Honeypot-MailFrom: ");
            out.append(f.as_str());
            out.append("\r\n");
        },
        None => {},
    }
    let ghost head = out@;
    let ghost rv = msg.rcpt_to.deep_view();
    let mut i: usize = 0;
    while i < msg.rcpt_to.len()
        invariant
            i <= msg.rcpt_to@.len(),
            rv == msg.rcpt_to.deep_view(),
            rv.len() == msg.rcpt_to@.len(),
            out@ == head + rcpt_headers(rv.take(i as int)),
        decreases msg.rcpt_to@.len() - i,
    {
        out.append("X-Honeypot-RcptTo: ");
        out.append(msg.rcpt_to[i].as_str());
        out.append("\r\n");
        proof {
            reveal_strlit("\r\n");
            assert("\r\n"@ =~= crlf());
            assert(rv.take(i + 1).drop_last() =~= rv.take(i as int));
            assert(rv.take(i + 1).last() == rv[i as int]);
            assert(rv[i as int] == msg.rcpt_to@[i as int]@);
            assert(out@ =~= head + rcpt_headers(rv.take(i + 1)));
        }
        i = i + 1;
    }
    out.append("\r\n");
    let body = crate::text::join_crlf(&msg.data);
    out.append(body.as_str());
    proof {
        reveal_strlit("\r\n");
        assert("\r\n"@ =~= crlf());
        assert(rv.take(rv.len() as int) =~= rv);
        assert(out@ =~= artifact_of(client@, date@, msg@));
    }
    out
}

/// The dots of an address replaced by underscores, for a file name.
pub open spec fn dotted_to_underscore(s: Seq<char>) -> Seq<char> {
    Seq::new(
        s.len(),
        |i: int|
            if s[i] == '.' {
                '_'
            } else {
                s[i]
            },
    )
}

/// The artifact file name: timestamp, underscore, the peer address with
/// its dots replaced, and the message extension.
pub open spec fn artifact_filename_of(timestamp: Seq<char>, ip: Seq<char>) -> Seq<char> {
    timestamp + seq!['_'] + dotted_to_underscore(ip) + ".eml"@
}

/// Builds the artifact file name for a message captured from `ip` at
/// `timestamp`.
pub fn artifact_filename(timestamp: &str, ip: &str) -> (r: String)
    ensures
        r@ == artifact_filename_of(timestamp@, ip@),
{
    let mut out = timestamp.to_owned();
    out.push('_');
    let n = ip.unicode_len();
    let ghost mark = out@;
    let mut i: usize = 0;
    while i < n
        invariant
            i <= n,
            n == ip@.len(),
            out@ == mark + dotted_to_underscore(ip@).take(i as int),
        decreases n - i,
    {
        let c = ip.get_char(i);
        if c == '.' {
            out.push('_');
        } else {
            out.push(c);
        }
        proof {
            assert(out@ =~= mark + dotted_to_underscore(ip@).take(i + 1));
        }
        i = i + 1;
    }
    out.append(".eml");
    proof {
        assert(dotted_to_underscore(ip@).take(n as int) =~= dotted_to_underscore(ip@));
        assert(out@ =~= artifact_filename_of(timestamp@, ip@));
    }
    out
}

} // verus!
