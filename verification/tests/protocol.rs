use smtp_honeypot::session::SmtpSession;
use smtp_honeypot::{Opt, SmtpHoneypot};

fn base_opt() -> Opt {
    Opt {
        daemon: false,
        ports: vec![25],
        address: "0.0.0.0".to_string(),
        domains: vec!["accepted-domain.com".to_string()],
        valid_mailboxes: vec!["user@special.org".to_string()],
        open_relay: false,
        helo: "smtp.local".to_string(),
        log_file: None,
        data_dir: None,
        max_connections_per_minute: 10,
        verbose: false,
        raw_display: false,
        tls_cert: None,
        tls_key: None,
        banner_delay: 0,
        starttls: false,
    }
}

fn session(starttls: bool) -> SmtpSession {
    SmtpSession::new("1.2.3.4:5000".to_string(), starttls)
}

#[test]
fn helo_advertises_starttls_when_offered_and_capable() {
    let hp = SmtpHoneypot::new(base_opt(), true);
    let mut s = session(true);
    let resp = hp.process_command("EHLO test", &mut s).unwrap();
    assert!(resp.contains("250-STARTTLS\r\n"));
    assert_eq!(resp, "250-smtp.local Hello test\r\n250-STARTTLS\r\n250 HELP\r\n");
    assert_eq!(s.helo.as_deref(), Some("test"));
}

#[test]
fn helo_does_not_advertise_starttls_without_tls_material() {
    let hp = SmtpHoneypot::new(base_opt(), false);
    let mut s = session(true);
    let resp = hp.process_command("EHLO test", &mut s).unwrap();
    assert!(!resp.contains("250-STARTTLS"));
}

#[test]
fn helo_does_not_advertise_starttls_when_not_offered() {
    let hp = SmtpHoneypot::new(base_opt(), true);
    let mut s = session(false);
    let resp = hp.process_command("HELO box", &mut s).unwrap();
    assert!(!resp.contains("250-STARTTLS"));
    assert_eq!(resp, "250-smtp.local Hello box\r\n250 HELP\r\n");
}

#[test]
fn helo_does_not_advertise_starttls_once_tls_active() {
    let hp = SmtpHoneypot::new(base_opt(), true);
    let mut s = session(true);
    s.set_tls_active();
    let resp = hp.process_command("EHLO test", &mut s).unwrap();
    assert!(!resp.contains("250-STARTTLS"));
}

#[test]
fn helo_without_argument_uses_placeholder() {
    let hp = SmtpHoneypot::new(base_opt(), false);
    let mut s = session(false);
    let resp = hp.process_command("HELO", &mut s).unwrap();
    assert_eq!(resp, "250-smtp.local Hello unknown\r\n250 HELP\r\n");
    assert_eq!(s.helo.as_deref(), Some("unknown"));
}

#[test]
fn data_rejected_before_mail_and_rcpt() {
    let hp = SmtpHoneypot::new(base_opt(), false);
    let mut s = session(false);
    let resp = hp.process_command("DATA", &mut s).unwrap();
    assert_eq!(resp, "503 Bad sequence of commands\r\n");
    assert!(!s.expecting_data);
}

#[test]
fn data_rejected_with_mail_but_no_rcpt() {
    let hp = SmtpHoneypot::new(base_opt(), false);
    let mut s = session(false);
    assert_eq!(
        hp.process_command("MAIL FROM:<a@b>", &mut s).unwrap(),
        "250 OK\r\n"
    );
    let resp = hp.process_command("DATA", &mut s).unwrap();
    assert_eq!(resp, "503 Bad sequence of commands\r\n");
}

#[test]
fn data_accepted_after_mail_and_rcpt() {
    let hp = SmtpHoneypot::new(base_opt(), false);
    let mut s = session(false);
    hp.process_command("MAIL FROM:<a@b>", &mut s).unwrap();
    let r = hp
        .process_command("RCPT TO:<x@accepted-domain.com>", &mut s)
        .unwrap();
    assert_eq!(r, "250 OK\r\n");
    let resp = hp.process_command("DATA", &mut s).unwrap();
    assert_eq!(resp, "354 Start mail input; end with <CRLF>.<CRLF>\r\n");
    assert!(s.expecting_data);
}

#[test]
fn rset_clears_transaction_but_not_helo_or_tls() {
    let hp = SmtpHoneypot::new(base_opt(), true);
    let mut s = session(true);
    s.set_tls_active();
    hp.process_command("EHLO box", &mut s).unwrap();
    hp.process_command("MAIL FROM:<a@b>", &mut s).unwrap();
    hp.process_command("RCPT TO:<x@accepted-domain.com>", &mut s)
        .unwrap();
    let resp = hp.process_command("RSET", &mut s).unwrap();
    assert_eq!(resp, "250 OK\r\n");
    assert!(s.mail_from.is_none());
    assert!(s.rcpt_to.is_empty());
    assert!(s.data.is_empty());
    assert!(!s.expecting_data);
    assert_eq!(s.helo.as_deref(), Some("box"));
    assert!(s.tls_active);
    let resp = hp.process_command("DATA", &mut s).unwrap();
    assert_eq!(resp, "503 Bad sequence of commands\r\n");
}

#[test]
fn open_relay_accepts_any_recipient() {
    let mut opt = base_opt();
    opt.open_relay = true;
    let hp = SmtpHoneypot::new(opt, false);
    let mut s = session(false);
    hp.process_command("MAIL FROM:<a@b>", &mut s).unwrap();
    let r = hp
        .process_command("RCPT TO:<anyone@nowhere.invalid>", &mut s)
        .unwrap();
    assert_eq!(r, "250 OK\r\n");
    assert_eq!(s.rcpt_to, vec!["anyone@nowhere.invalid".to_string()]);
}

#[test]
fn recipient_policy_scenario() {
    let hp = SmtpHoneypot::new(base_opt(), false);
    let mut s = session(false);
    assert!(hp
        .process_command("EHLO test", &mut s)
        .unwrap()
        .starts_with("250-"));
    assert_eq!(
        hp.process_command("MAIL FROM:<a@evil.com>", &mut s).unwrap(),
        "250 OK\r\n"
    );
    assert_eq!(
        hp.process_command("RCPT TO:<nobody@accepted-domain.com>", &mut s)
            .unwrap(),
        "250 OK\r\n"
    );
    assert_eq!(
        hp.process_command("RCPT TO:<nobody@other.com>", &mut s).unwrap(),
        "550 No such user\r\n"
    );
    assert_eq!(s.rcpt_to, vec!["nobody@accepted-domain.com".to_string()]);
}

#[test]
fn exact_mailbox_match_is_accepted() {
    let hp = SmtpHoneypot::new(base_opt(), false);
    let mut s = session(false);
    hp.process_command("MAIL FROM:<a@b>", &mut s).unwrap();
    assert_eq!(
        hp.process_command("RCPT TO:<user@special.org>", &mut s).unwrap(),
        "250 OK\r\n"
    );
}

#[test]
fn recipient_domain_is_after_last_at_sign() {
    let hp = SmtpHoneypot::new(base_opt(), false);
    assert!(hp.is_valid_recipient("x@y@accepted-domain.com"));
    assert!(!hp.is_valid_recipient("x@accepted-domain.com@other.com"));
    assert!(!hp.is_valid_recipient("no-at-sign"));
}

#[test]
fn mail_syntax_errors() {
    let hp = SmtpHoneypot::new(base_opt(), false);
    let mut s = session(false);
    assert_eq!(
        hp.process_command("MAIL", &mut s).unwrap(),
        "501 Syntax error in parameters\r\n"
    );
    assert_eq!(
        hp.process_command("MAIL TO:<a@b>", &mut s).unwrap(),
        "501 Syntax error in parameters\r\n"
    );
    assert!(s.mail_from.is_none());
}

#[test]
fn rcpt_syntax_errors() {
    let hp = SmtpHoneypot::new(base_opt(), false);
    let mut s = session(false);
    assert_eq!(
        hp.process_command("RCPT", &mut s).unwrap(),
        "501 Syntax error in parameters\r\n"
    );
    assert_eq!(
        hp.process_command("RCPT FROM:<a@b>", &mut s).unwrap(),
        "501 Syntax error in parameters\r\n"
    );
}

#[test]
fn mail_strips_angle_brackets_and_is_case_insensitive() {
    let hp = SmtpHoneypot::new(base_opt(), false);
    let mut s = session(false);
    assert_eq!(
        hp.process_command("mail from:<a@b>", &mut s).unwrap(),
        "250 OK\r\n"
    );
    assert_eq!(s.mail_from.as_deref(), Some("a@b"));
    hp.process_command("MAIL FROM:c@d", &mut s).unwrap();
    assert_eq!(s.mail_from.as_deref(), Some("c@d"));
}

#[test]
fn starttls_ready_and_refused() {
    let hp = SmtpHoneypot::new(base_opt(), true);
    let mut s = session(true);
    assert_eq!(
        hp.process_command("STARTTLS", &mut s).unwrap(),
        "220 Ready to start TLS\r\n"
    );
    s.set_tls_active();
    assert_eq!(
        hp.process_command("STARTTLS", &mut s).unwrap(),
        "454 TLS not available\r\n"
    );
    let mut p = session(false);
    assert_eq!(
        hp.process_command("STARTTLS", &mut p).unwrap(),
        "454 TLS not available\r\n"
    );
}

#[test]
fn auth_responses() {
    let hp = SmtpHoneypot::new(base_opt(), false);
    let mut s = session(false);
    assert_eq!(
        hp.process_command("AUTH LOGIN", &mut s).unwrap(),
        "334 VXNlcm5hbWU6\r\n"
    );
    assert_eq!(
        hp.process_command("AUTH", &mut s).unwrap(),
        "504 Unrecognized authentication type\r\n"
    );
    assert_eq!(
        hp.process_command("AUTH PLAIN dXNlcg==", &mut s).unwrap(),
        "235 Authentication successful\r\n"
    );
}

#[test]
fn small_commands() {
    let hp = SmtpHoneypot::new(base_opt(), false);
    let mut s = session(false);
    assert_eq!(hp.process_command("NOOP", &mut s).unwrap(), "250 OK\r\n");
    assert_eq!(
        hp.process_command("VRFY someone", &mut s).unwrap(),
        "252 Cannot verify user\r\n"
    );
    assert_eq!(
        hp.process_command("EXPN list", &mut s).unwrap(),
        "252 Cannot verify user\r\n"
    );
    assert_eq!(hp.process_command("QUIT", &mut s).unwrap(), "221 Bye\r\n");
    assert_eq!(
        hp.process_command("BOGUS", &mut s).unwrap(),
        "500 Command not recognized\r\n"
    );
    assert_eq!(hp.process_command("", &mut s).unwrap(), "500 Syntax error\r\n");
    assert_eq!(hp.process_command("   ", &mut s).unwrap(), "500 Syntax error\r\n");
}
