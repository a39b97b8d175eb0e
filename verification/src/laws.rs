use vstd::prelude::*;

use crate::commands::{
    data_allowed, helo_arg, helo_reply, process_next, process_reply, rcpt_addr, rcpt_accepted,
    rcpt_syntax_ok, starttls_available,
};
use crate::handler::{artifact_of, capture_of, line_upgrades, rcpt_headers};
use crate::session::{reset_session, SessionModel};
use crate::text::{crlf, crlf_joined, tokens_of, upper_seq};
use crate::CfgModel;

verus! {

/// The HELO/EHLO reply advertises STARTTLS exactly when the port offers
/// it, the transport is not yet encrypted, and TLS material is configured:
/// the reply is the greeting with the STARTTLS line present under exactly
/// that conjunction.
pub proof fn lemma_starttls_advertised(cfg: CfgModel, s: SessionModel, line: Seq<char>)
    requires
        tokens_of(line).len() > 0,
        upper_seq(tokens_of(line)[0]) == "HELO"@ || upper_seq(tokens_of(line)[0]) == "EHLO"@,
    ensures
        process_reply(cfg, s, line) == helo_reply(
            cfg.banner,
            helo_arg(tokens_of(line)),
            s.starttls_enabled && !s.tls_active && cfg.tls_available,
        ),
{
}

/// DATA is refused with 503 unless a sender and at least one accepted
/// recipient precede it in the current transaction, in which case it is
/// granted with 354 and body capture begins; nothing else changes.
pub proof fn lemma_data_needs_transaction(cfg: CfgModel, s: SessionModel, line: Seq<char>)
    requires
        tokens_of(line).len() > 0,
        upper_seq(tokens_of(line)[0]) == "DATA"@,
    ensures
        process_reply(cfg, s, line) == (if data_allowed(s) {
            "354 Start mail input; end with <CRLF>.<CRLF>\r\n"@
        } else {
            "503 Bad sequence of commands\r\n"@
        }),
        process_next(cfg, s, line) == (if data_allowed(s) {
            SessionModel { expecting_data: true, ..s }
        } else {
            s
        }),
{
    reveal_strlit("DATA");
    reveal_strlit("HELO");
    reveal_strlit("EHLO");
    reveal_strlit("STARTTLS");
    reveal_strlit("MAIL");
    reveal_strlit("RCPT");
    let cmd = upper_seq(tokens_of(line)[0]);
    assert(cmd != "HELO"@ && cmd != "EHLO"@ && cmd != "STARTTLS"@ && cmd != "MAIL"@ && cmd
        != "RCPT"@) by {
        assert("DATA"@[0] == 'D' && "HELO"@[0] == 'H' && "EHLO"@[0] == 'E' && "MAIL"@[0] == 'M'
            && "RCPT"@[0] == 'R');
        assert("STARTTLS"@.len() == 8 && "DATA"@.len() == 4);
    }
}

/// RSET clears the transaction: sender, recipients, body lines and the
/// body-capture flag; the greeting name and the TLS flag survive, and the
/// reply is 250.
pub proof fn lemma_rset_clears_transaction(cfg: CfgModel, s: SessionModel, line: Seq<char>)
    requires
        tokens_of(line).len() > 0,
        upper_seq(tokens_of(line)[0]) == "RSET"@,
    ensures
        process_reply(cfg, s, line) == "250 OK\r\n"@,
        process_next(cfg, s, line) == reset_session(s),
        process_next(cfg, s, line).helo == s.helo,
        process_next(cfg, s, line).tls_active == s.tls_active,
        process_next(cfg, s, line).mail_from is None,
        process_next(cfg, s, line).rcpt_to.len() == 0,
        process_next(cfg, s, line).data.len() == 0,
        !process_next(cfg, s, line).expecting_data,
{
    reveal_strlit("RSET");
    reveal_strlit("HELO");
    reveal_strlit("EHLO");
    reveal_strlit("STARTTLS");
    reveal_strlit("MAIL");
    reveal_strlit("RCPT");
    reveal_strlit("DATA");
    reveal_strlit("AUTH");
    reveal_strlit("QUIT");
    let cmd = upper_seq(tokens_of(line)[0]);
    assert(cmd != "HELO"@ && cmd != "EHLO"@ && cmd != "STARTTLS"@ && cmd != "MAIL"@ && cmd
        != "RCPT"@ && cmd != "DATA"@ && cmd != "AUTH"@ && cmd != "QUIT"@) by {
        assert("RSET"@[0] == 'R' && "RSET"@[1] == 'S');
        assert("HELO"@[0] == 'H' && "EHLO"@[0] == 'E' && "MAIL"@[0] == 'M' && "DATA"@[0] == 'D'
            && "AUTH"@[0] == 'A' && "QUIT"@[0] == 'Q');
        assert("RCPT"@[1] == 'C');
        assert("STARTTLS"@.len() == 8 && "RSET"@.len() == 4);
    }
}

/// Recipient acceptance is monotonic under open relay: whatever the
/// domain and mailbox lists hold, a well-formed RCPT is answered 250 and
/// its address is appended to the transaction's recipients.
pub proof fn lemma_open_relay_accepts(cfg: CfgModel, s: SessionModel, line: Seq<char>)
    requires
        cfg.open_relay,
        tokens_of(line).len() > 0,
        upper_seq(tokens_of(line)[0]) == "RCPT"@,
        rcpt_syntax_ok(tokens_of(line)),
    ensures
        process_reply(cfg, s, line) == "250 OK\r\n"@,
        process_next(cfg, s, line).rcpt_to == s.rcpt_to.push(rcpt_addr(tokens_of(line))),
{
    reveal_strlit("RCPT");
    reveal_strlit("HELO");
    reveal_strlit("EHLO");
    reveal_strlit("STARTTLS");
    reveal_strlit("MAIL");
    let cmd = upper_seq(tokens_of(line)[0]);
    assert(cmd != "HELO"@ && cmd != "EHLO"@ && cmd != "STARTTLS"@ && cmd != "MAIL"@) by {
        assert("RCPT"@[0] == 'R' && "HELO"@[0] == 'H' && "EHLO"@[0] == 'E' && "MAIL"@[0] == 'M');
        assert("STARTTLS"@.len() == 8 && "RCPT"@.len() == 4);
    }
    assert(rcpt_accepted(cfg, rcpt_addr(tokens_of(line))));
}

/// STARTTLS on a port where it was never offered, without TLS material,
/// or after the transport is already encrypted is refused with 454, and no
/// handshake is attempted.
pub proof fn lemma_starttls_refused(cfg: CfgModel, s: SessionModel, line: Seq<char>)
    requires
        tokens_of(line).len() > 0,
        upper_seq(tokens_of(line)[0]) == "STARTTLS"@,
        !starttls_available(cfg, s),
    ensures
        process_reply(cfg, s, line) == "454 TLS not available\r\n"@,
        process_next(cfg, s, line) == s,
        !line_upgrades(cfg, s, line),
{
    reveal_strlit("STARTTLS");
    reveal_strlit("HELO");
    reveal_strlit("EHLO");
    let cmd = upper_seq(tokens_of(line)[0]);
    assert(cmd != "HELO"@ && cmd != "EHLO"@) by {
        assert("STARTTLS"@.len() == 8 && "HELO"@.len() == 4 && "EHLO"@.len() == 4);
    }
}

/// Round trip of a captured message: the transaction a session collected
/// is persisted verbatim — each header from its field, one recipient
/// header per accepted recipient, and the body lines joined by CRLF — and
/// the reset that follows leaves the transaction empty while the greeting
/// name and the TLS flag survive.
pub proof fn lemma_capture_round_trip(
    client: Seq<char>,
    date: Seq<char>,
    helo: Seq<char>,
    from: Seq<char>,
    rcpt: Seq<char>,
    body: Seq<Seq<char>>,
    s: SessionModel,
)
    requires
        s.helo == Some(helo),
        s.mail_from == Some(from),
        s.rcpt_to == seq![rcpt],
        s.data == body,
    ensures
        artifact_of(client, date, capture_of(s)) == "X-Honeypot-Client: "@ + client + crlf()
            + "X-Honeypot-Date: "@ + date + crlf() + "X-Honeypot-HELO: "@ + helo + crlf()
            + "X-Honeypot-MailFrom: "@ + from + crlf() + "X-Honeypot-RcptTo: "@ + rcpt + crlf()
            + crlf() + crlf_joined(body),
        reset_session(s).mail_from is None,
        reset_session(s).rcpt_to.len() == 0,
        reset_session(s).data.len() == 0,
        !reset_session(s).expecting_data,
        reset_session(s).helo == s.helo,
        reset_session(s).tls_active == s.tls_active,
{
    let m = capture_of(s);
    assert(seq![rcpt].drop_last() =~= Seq::<Seq<char>>::empty());
    assert(rcpt_headers(seq![rcpt]) == rcpt_headers(Seq::<Seq<char>>::empty())
        + "X-Honeypot-RcptTo: "@ + rcpt + crlf());
    assert(artifact_of(client, date, m) =~= "X-Honeypot-Client: "@ + client + crlf()
        + "X-Honeypot-Date: "@ + date + crlf() + "X-Honeypot-HELO: "@ + helo + crlf()
        + "X-Honeypot-MailFrom: "@ + from + crlf() + "X-Honeypot-RcptTo: "@ + rcpt + crlf()
        + crlf() + crlf_joined(body));
}

} // verus!
