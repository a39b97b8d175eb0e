use vstd::prelude::*;
use vstd::string::StrSliceExecFns;
use vstd::string::StringExecFns;

use crate::session::{reset_session, SessionModel, SmtpSession};
use crate::text::{
    crlf, domain_of, domain_part, matches_keyword, split_ws, tokens_of, trim_char, trim_matching,
    upper_seq, upper_starts_with,
};
use crate::{CfgModel, SmtpHoneypot};

verus! {

/// STARTTLS can be offered or honoured: the port offers it, the transport
/// is not yet encrypted, and TLS material is configured.
pub open spec fn starttls_available(cfg: CfgModel, s: SessionModel) -> bool {
    s.starttls_enabled && !s.tls_active && cfg.tls_available
}

/// The greeting name a HELO/EHLO sets: its argument, or a placeholder.
pub open spec fn helo_arg(tokens: Seq<Seq<char>>) -> Seq<char> {
    if tokens.len() >= 2 {
        tokens[1]
    } else {
        "unknown"@
    }
}

/// The multi-line HELO/EHLO reply; the STARTTLS line appears exactly when
/// `advertise` holds.
pub open spec fn helo_reply(banner: Seq<char>, name: Seq<char>, advertise: bool) -> Seq<char> {
    "250-"@ + banner + " Hello "@ + name + crlf() + (if advertise {
        "250-STARTTLS\r\n"@
    } else {
        Seq::<char>::empty()
    }) + "250 HELP\r\n"@
}

/// MAIL's argument is well-formed: a second token whose first five
/// characters spell `FROM:` in any case.
pub open spec fn mail_syntax_ok(tokens: Seq<Seq<char>>) -> bool {
    tokens.len() >= 2 && tokens[1].len() >= 5 && upper_seq(tokens[1]).take(5) == "FROM:"@
}

/// The sender address of a well-formed MAIL: what follows `FROM:`, with
/// angle brackets stripped from both ends.
pub open spec fn mail_addr(tokens: Seq<Seq<char>>) -> Seq<char> {
    trim_char(trim_char(tokens[1].skip(5), '<'), '>')
}

/// RCPT's argument is well-formed: a second token whose first three
/// characters spell `TO:` in any case.
pub open spec fn rcpt_syntax_ok(tokens: Seq<Seq<char>>) -> bool {
    tokens.len() >= 2 && tokens[1].len() >= 3 && upper_seq(tokens[1]).take(3) == "TO:"@
}

/// The recipient address of a well-formed RCPT: what follows `TO:`, with
/// angle brackets stripped from both ends.
pub open spec fn rcpt_addr(tokens: Seq<Seq<char>>) -> Seq<char> {
    trim_char(trim_char(tokens[1].skip(3), '<'), '>')
}

/// The recipient-acceptance policy: everything under open relay, otherwise
/// an exact valid-mailbox match or an accepted domain (the part after the
/// last `@`).
pub open spec fn rcpt_accepted(cfg: CfgModel, addr: Seq<char>) -> bool {
    cfg.open_relay || cfg.valid_mailboxes.contains(addr) || (match domain_of(addr) {
        Some(d) => cfg.domains.contains(d),
        None => false,
    })
}

/// DATA may proceed: a sender is set and at least one recipient was
/// accepted in the current transaction.
pub open spec fn data_allowed(s: SessionModel) -> bool {
    s.mail_from is Some && s.rcpt_to.len() > 0
}

/// The reply to one command line, as a function of the configuration and
/// the session state the line meets.
pub open spec fn process_reply(cfg: CfgModel, s: SessionModel, line: Seq<char>) -> Seq<char> {
    let tokens = tokens_of(line);
    if tokens.len() == 0 {
        "500 Syntax error\r\n"@
    } else {
        let cmd = upper_seq(tokens[0]);
        if cmd == "HELO"@ || cmd == "EHLO"@ {
            helo_reply(cfg.banner, helo_arg(tokens), starttls_available(cfg, s))
        } else if cmd == "STARTTLS"@ {
            if starttls_available(cfg, s) {
                "220 Ready to start TLS\r\n"@
            } else {
                "454 TLS not available\r\n"@
            }
        } else if cmd == "MAIL"@ {
            if mail_syntax_ok(tokens) {
                "250 OK\r\n"@
            } else {
                "501 Syntax error in parameters\r\n"@
            }
        } else if cmd == "RCPT"@ {
            if !rcpt_syntax_ok(tokens) {
                "501 Syntax error in parameters\r\n"@
            } else if rcpt_accepted(cfg, rcpt_addr(tokens)) {
                "250 OK\r\n"@
            } else {
                "550 No such user\r\n"@
            }
        } else if cmd == "DATA"@ {
            if data_allowed(s) {
                "354 Start mail input; end with <CRLF>.<CRLF>\r\n"@
            } else {
                "503 Bad sequence of commands\r\n"@
            }
        } else if cmd == "AUTH"@ {
            if tokens.len() >= 2 && upper_seq(tokens[1]) == "LOGIN"@ {
                "334 VXNlcm5hbWU6\r\n"@
            } else if tokens.len() == 1 {
                "504 Unrecognized authentication type\r\n"@
            } else {
                "235 Authentication successful\r\n"@
            }
        } else if cmd == "QUIT"@ {
            "221 Bye\r\n"@
        } else if cmd == "RSET"@ {
            "250 OK\r\n"@
        } else if cmd == "NOOP"@ {
            "250 OK\r\n"@
        } else if cmd == "VRFY"@ || cmd == "EXPN"@ {
            "252 Cannot verify user\r\n"@
        } else {
            "500 Command not recognized\r\n"@
        }
    }
}

/// The session state after one command line.
pub open spec fn process_next(cfg: CfgModel, s: SessionModel, line: Seq<char>) -> SessionModel {
    let tokens = tokens_of(line);
    if tokens.len() == 0 {
        s
    } else {
        let cmd = upper_seq(tokens[0]);
        if cmd == "HELO"@ || cmd == "EHLO"@ {
            SessionModel { helo: Some(helo_arg(tokens)), ..s }
        } else if cmd == "STARTTLS"@ {
            s
        } else if cmd == "MAIL"@ {
            if mail_syntax_ok(tokens) {
                SessionModel { mail_from: Some(mail_addr(tokens)), ..s }
            } else {
                s
            }
        } else if cmd == "RCPT"@ {
            if rcpt_syntax_ok(tokens) && rcpt_accepted(cfg, rcpt_addr(tokens)) {
                SessionModel { rcpt_to: s.rcpt_to.push(rcpt_addr(tokens)), ..s }
            } else {
                s
            }
        } else if cmd == "DATA"@ {
            if data_allowed(s) {
                SessionModel { expecting_data: true, ..s }
            } else {
                s
            }
        } else if cmd == "AUTH"@ {
            s
        } else if cmd == "QUIT"@ {
            s
        } else if cmd == "RSET"@ {
            reset_session(s)
        } else {
            s
        }
    }
}

impl SmtpHoneypot {
    /// Whether the policy accepts a recipient address.
    pub fn is_valid_recipient(&self, recipient: &str) -> (r: bool)
        ensures
            r == rcpt_accepted(self@, recipient@),
    {
        if self.opt.open_relay {
            return true;
        }
        let ghost mboxes = self@.valid_mailboxes;
        let mut i: usize = 0;
        while i < self.valid_mailboxes.len()
            invariant
                i <= self.valid_mailboxes@.len(),
                mboxes == self.valid_mailboxes.deep_view(),
                mboxes.len() == self.valid_mailboxes@.len(),
                forall|j: int| 0 <= j < i ==> mboxes[j] != recipient@,
            decreases self.valid_mailboxes@.len() - i,
        {
            if crate::text::eq_str(self.valid_mailboxes[i].as_str(), recipient) {
                proof {
                    assert(mboxes[i as int] == self.valid_mailboxes@[i as int]@);
                    assert(mboxes.contains(recipient@));
                }
                return true;
            }
            proof {
                assert(mboxes[i as int] == self.valid_mailboxes@[i as int]@);
            }
            i = i + 1;
        }
        proof {
            assert(!mboxes.contains(recipient@));
        }
        match domain_part(recipient) {
            Some(d) => {
                let ghost doms = self@.domains;
                let mut i: usize = 0;
                while i < self.opt.domains.len()
                    invariant
                        i <= self.opt.domains@.len(),
                        doms == self.opt.domains.deep_view(),
                        doms.len() == self.opt.domains@.len(),
                        domain_of(recipient@) == Some(d@),
                        forall|j: int| 0 <= j < i ==> doms[j] != d@,
                    decreases self.opt.domains@.len() - i,
                {
                    if crate::text::eq_str(self.opt.domains[i].as_str(), d.as_str()) {
                        proof {
                            assert(doms[i as int] == self.opt.domains@[i as int]@);
                            assert(doms.contains(d@));
                            assert(domain_of(recipient@) == Some(d@));
                            assert(rcpt_accepted(self@, recipient@));
                        }
                        return true;
                    }
                    proof {
                        assert(doms[i as int] == self.opt.domains@[i as int]@);
                    }
                    i = i + 1;
                }
                proof {
                    assert(!doms.contains(d@));
                }
                false
            },
            None => false,
        }
    }

    /// Runs one command line against the session: dispatches on the first
    /// token, case-insensitively, mutates the session as the command asks,
    /// and always produces a reply.
    pub fn process_command(&self, cmd_line: &str, session: &mut SmtpSession) -> (r: Option<
        String,
    >)
        ensures
            match r {
                Some(resp) => resp@ == process_reply(self@, old(session)@, cmd_line@),
                None => false,
            },
            final(session)@ == process_next(self@, old(session)@, cmd_line@),
    {
        let parts = split_ws(cmd_line);
        proof {
            assert(forall|j: int|
                0 <= j < parts@.len() ==> parts.deep_view()[j] == parts@[j]@);
            assert(parts.deep_view().len() == parts@.len());
        }
        if parts.len() == 0 {
            proof {
                assert(final(session)@ =~= process_next(self@, old(session)@, cmd_line@));
            }
            return Some("500 Syntax error\r\n".to_owned());
        }
        let ghost tokens = tokens_of(cmd_line@);
        let cmd = parts[0].as_str();
        if matches_keyword(cmd, "HELO") || matches_keyword(cmd, "EHLO") {
            let name: &str = if parts.len() >= 2 {
                parts[1].as_str()
            } else {
                "unknown"
            };
            session.helo = Some(name.to_owned());
            let advertise = session.starttls_enabled && !session.tls_active && self.tls_available;
            let mut resp = "250-".to_owned();
            resp.append(self.opt.helo.as_str());
            resp.append(" Hello ");
            resp.append(name);
            resp.append("\r\n");
            if advertise {
                resp.append("250-STARTTLS\r\n");
            }
            resp.append("250 HELP\r\n");
            proof {
                reveal_strlit("\r\n");
                assert("\r\n"@ =~= crlf());
                assert(resp@ =~= helo_reply(
                    self@.banner,
                    helo_arg(tokens),
                    starttls_available(self@, old(session)@),
                ));
                assert(session@ =~= process_next(self@, old(session)@, cmd_line@));
            }
            Some(resp)
        } else if matches_keyword(cmd, "STARTTLS") {
            proof {
                assert(session@ =~= process_next(self@, old(session)@, cmd_line@));
            }
            if session.starttls_enabled && self.tls_available && !session.tls_active {
                Some("220 Ready to start TLS\r\n".to_owned())
            } else {
                Some("454 TLS not available\r\n".to_owned())
            }
        } else if matches_keyword(cmd, "MAIL") {
            if parts.len() < 2 || !upper_starts_with(parts[1].as_str(), "FROM:") {
                proof {
                    reveal_strlit("FROM:");
                    assert("FROM:"@.len() == 5);
                    assert(!mail_syntax_ok(tokens));
                    assert(session@ =~= process_next(self@, old(session)@, cmd_line@));
                }
                return Some("501 Syntax error in parameters\r\n".to_owned());
            }
            let arg = parts[1].as_str();
            proof {
                reveal_strlit("FROM:");
                assert("FROM:"@.len() == 5);
                assert(mail_syntax_ok(tokens));
            }
            let rest = arg.substring_char(5, arg.unicode_len());
            let from = trim_matching(trim_matching(rest, '<').as_str(), '>');
            proof {
                assert(arg@.subrange(5, arg@.len() as int) =~= tokens[1].skip(5));
                assert(from@ == mail_addr(tokens));
            }
            session.mail_from = Some(from);
            proof {
                assert(session@ =~= process_next(self@, old(session)@, cmd_line@));
            }
            Some("250 OK\r\n".to_owned())
        } else if matches_keyword(cmd, "RCPT") {
            if parts.len() < 2 || !upper_starts_with(parts[1].as_str(), "TO:") {
                proof {
                    reveal_strlit("TO:");
                    assert("TO:"@.len() == 3);
                    assert(!rcpt_syntax_ok(tokens));
                    assert(session@ =~= process_next(self@, old(session)@, cmd_line@));
                }
                return Some("501 Syntax error in parameters\r\n".to_owned());
            }
            let arg = parts[1].as_str();
            proof {
                reveal_strlit("TO:");
                assert("TO:"@.len() == 3);
                assert(rcpt_syntax_ok(tokens));
            }
            let rest = arg.substring_char(3, arg.unicode_len());
            let to = trim_matching(trim_matching(rest, '<').as_str(), '>');
            proof {
                assert(arg@.subrange(3, arg@.len() as int) =~= tokens[1].skip(3));
                assert(to@ == rcpt_addr(tokens));
            }
            if self.is_valid_recipient(to.as_str()) {
                let ghost before = session.rcpt_to.deep_view();
                session.rcpt_to.push(to);
                proof {
                    assert(session.rcpt_to.deep_view() =~= before.push(to@));
                    assert(session@ =~= process_next(self@, old(session)@, cmd_line@));
                }
                Some("250 OK\r\n".to_owned())
            } else {
                proof {
                    assert(session@ =~= process_next(self@, old(session)@, cmd_line@));
                }
                Some("550 No such user\r\n".to_owned())
            }
        } else if matches_keyword(cmd, "DATA") {
            if session.mail_from.is_none() || session.rcpt_to.len() == 0 {
                proof {
                    assert(session@ =~= process_next(self@, old(session)@, cmd_line@));
                }
                return Some("503 Bad sequence of commands\r\n".to_owned());
            }
            session.expecting_data = true;
            proof {
                assert(session@ =~= process_next(self@, old(session)@, cmd_line@));
            }
            Some("354 Start mail input; end with <CRLF>.<CRLF>\r\n".to_owned())
        } else if matches_keyword(cmd, "AUTH") {
            proof {
                assert(session@ =~= process_next(self@, old(session)@, cmd_line@));
            }
            if parts.len() >= 2 && matches_keyword(parts[1].as_str(), "LOGIN") {
                Some("334 VXNlcm5hbWU6\r\n".to_owned())
            } else if parts.len() == 1 {
                Some("504 Unrecognized authentication type\r\n".to_owned())
            } else {
                Some("235 Authentication successful\r\n".to_owned())
            }
        } else if matches_keyword(cmd, "QUIT") {
            proof {
                assert(session@ =~= process_next(self@, old(session)@, cmd_line@));
            }
            Some("221 Bye\r\n".to_owned())
        } else if matches_keyword(cmd, "RSET") {
            session.reset();
            proof {
                assert(session@ =~= process_next(self@, old(session)@, cmd_line@));
            }
            Some("250 OK\r\n".to_owned())
        } else if matches_keyword(cmd, "NOOP") {
            proof {
                assert(session@ =~= process_next(self@, old(session)@, cmd_line@));
            }
            Some("250 OK\r\n".to_owned())
        } else if matches_keyword(cmd, "VRFY") || matches_keyword(cmd, "EXPN") {
            proof {
                assert(session@ =~= process_next(self@, old(session)@, cmd_line@));
            }
            Some("252 Cannot verify user\r\n".to_owned())
        } else {
            proof {
                assert(session@ =~= process_next(self@, old(session)@, cmd_line@));
            }
            Some("500 Command not recognized\r\n".to_owned())
        }
    }
}

} // verus!
