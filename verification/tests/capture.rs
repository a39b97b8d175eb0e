use smtp_honeypot::handler::{artifact_filename, build_artifact, LineAction};
use smtp_honeypot::session::SmtpSession;
use smtp_honeypot::{Opt, SmtpHoneypot};

fn base_opt() -> Opt {
    Opt {
        daemon: false,
        ports: vec![25],
        address: "0.0.0.0".to_string(),
        domains: vec!["d".to_string()],
        valid_mailboxes: vec![],
        open_relay: false,
        helo: "smtp.local".to_string(),
        log_file: None,
        data_dir: None,
        max_connections_per_minute: 10,
        verbose: false,
        raw_display: false,
        tls_cert: None,
        tls_key: None,
        banner_delay: 0,
        starttls: false,
    }
}

#[test]
fn captured_message_round_trip() {
    let hp = SmtpHoneypot::new(base_opt(), false);
    let mut s = SmtpSession::new("9.8.7.6:1234".to_string(), false);
    let out = hp.handle_line(&mut s, "HELO x\r\n");
    assert!(out.response.unwrap().starts_with("250-"));
    assert!(matches!(out.action, LineAction::Continue));
    hp.handle_line(&mut s, "MAIL FROM:<a@b>\r\n");
    hp.handle_line(&mut s, "RCPT TO:<c@d>\r\n");
    let out = hp.handle_line(&mut s, "DATA\r\n");
    assert_eq!(
        out.response.as_deref(),
        Some("354 Start mail input; end with <CRLF>.<CRLF>\r\n")
    );
    assert!(s.expecting_data);

    let out = hp.handle_line(&mut s, "line1\r\n");
    assert!(out.response.is_none());
    assert!(out.completed.is_none());
    let out = hp.handle_line(&mut s, "line2\r\n");
    assert!(out.response.is_none());

    let out = hp.handle_line(&mut s, ".\r\n");
    assert_eq!(out.response.as_deref(), Some("250 OK: Message accepted\r\n"));
    assert!(matches!(out.action, LineAction::Continue));
    let msg = out.completed.expect("a completed message");
    assert_eq!(msg.helo.as_deref(), Some("x"));
    assert_eq!(msg.mail_from.as_deref(), Some("a@b"));
    assert_eq!(msg.rcpt_to, vec!["c@d".to_string()]);
    assert_eq!(msg.data, vec!["line1".to_string(), "line2".to_string()]);

    // the transaction is empty right after; greeting name survives
    assert!(s.mail_from.is_none());
    assert!(s.rcpt_to.is_empty());
    assert!(s.data.is_empty());
    assert!(!s.expecting_data);
    assert_eq!(s.helo.as_deref(), Some("x"));

    let content = build_artifact("9.8.7.6:1234", "2026-01-02 03:04:05", &msg);
    assert_eq!(
        content,
        "X-Honeypot-Client: 9.8.7.6:1234\r\n\
         X-Honeypot-Date: 2026-01-02 03:04:05\r\n\
         X-Honeypot-HELO: x\r\n\
         X-Honeypot-MailFrom: a@b\r\n\
         X-Honeypot-RcptTo: c@d\r\n\
         \r\n\
         line1\r\nline2"
    );
}

#[test]
fn artifact_without_optional_headers() {
    let hp = SmtpHoneypot::new(base_opt(), false);
    let mut s = SmtpSession::new("1.1.1.1:1".to_string(), false);
    hp.handle_line(&mut s, "MAIL FROM:<a@b>\r\n");
    hp.handle_line(&mut s, "RCPT TO:<c@d>\r\n");
    hp.handle_line(&mut s, "DATA\r\n");
    let out = hp.handle_line(&mut s, ".\r\n");
    let msg = out.completed.unwrap();
    assert!(msg.helo.is_none());
    let content = build_artifact("1.1.1.1:1", "2026-02-03 00:00:00", &msg);
    assert_eq!(
        content,
        "X-Honeypot-Client: 1.1.1.1:1\r\nX-Honeypot-Date: 2026-02-03 00:00:00\r\nX-Honeypot-MailFrom: a@b\r\nX-Honeypot-RcptTo: c@d\r\n\r\n"
    );
}

#[test]
fn body_lines_are_collected_verbatim() {
    let hp = SmtpHoneypot::new(base_opt(), false);
    let mut s = SmtpSession::new("1.1.1.1:1".to_string(), false);
    hp.handle_line(&mut s, "MAIL FROM:<a@b>\r\n");
    hp.handle_line(&mut s, "RCPT TO:<c@d>\r\n");
    hp.handle_line(&mut s, "DATA\r\n");
    // command-like lines inside a body are data, not commands
    let out = hp.handle_line(&mut s, "QUIT\r\n");
    assert!(out.response.is_none());
    assert!(matches!(out.action, LineAction::Continue));
    assert_eq!(s.data, vec!["QUIT".to_string()]);
}

#[test]
fn quit_closes_the_connection() {
    let hp = SmtpHoneypot::new(base_opt(), false);
    let mut s = SmtpSession::new("1.1.1.1:1".to_string(), false);
    let out = hp.handle_line(&mut s, "QUIT\r\n");
    assert_eq!(out.response.as_deref(), Some("221 Bye\r\n"));
    assert!(matches!(out.action, LineAction::Close));
}

#[test]
fn accepted_starttls_asks_for_an_upgrade() {
    let hp = SmtpHoneypot::new(base_opt(), true);
    let mut s = SmtpSession::new("1.1.1.1:1".to_string(), true);
    let out = hp.handle_line(&mut s, "STARTTLS\r\n");
    assert_eq!(out.response.as_deref(), Some("220 Ready to start TLS\r\n"));
    assert!(matches!(out.action, LineAction::UpgradeTls));
    // the handshake succeeded: the session keeps its state, encrypted
    s.set_tls_active();
    assert!(s.tls_active);
    // a second STARTTLS is refused and asks for no second handshake
    let out = hp.handle_line(&mut s, "STARTTLS\r\n");
    assert_eq!(out.response.as_deref(), Some("454 TLS not available\r\n"));
    assert!(matches!(out.action, LineAction::Continue));
}

#[test]
fn starttls_never_offered_does_not_upgrade() {
    let hp = SmtpHoneypot::new(base_opt(), true);
    let mut s = SmtpSession::new("1.1.1.1:1".to_string(), false);
    let out = hp.handle_line(&mut s, "STARTTLS\r\n");
    assert_eq!(out.response.as_deref(), Some("454 TLS not available\r\n"));
    assert!(matches!(out.action, LineAction::Continue));
}

#[test]
fn artifact_filename_encodes_timestamp_and_address() {
    assert_eq!(
        artifact_filename("20260102_030405", "10.20.30.40"),
        "20260102_030405_10_20_30_40.eml"
    );
    assert_eq!(artifact_filename("t", "abc"), "t_abc.eml");
}

#[test]
fn connection_plans_follow_port_and_configuration() {
    let mut opt = base_opt();
    opt.starttls = true;
    opt.banner_delay = 250;
    let hp = SmtpHoneypot::new(opt, true);
    let p = hp.connection_plan(465);
    assert!(p.implicit_tls);
    assert!(!p.starttls_offered);
    assert_eq!(p.delay_ms, 0);
    assert!(!p.plaintext_fallback);
    let p = hp.connection_plan(25);
    assert!(!p.implicit_tls);
    assert!(p.starttls_offered);
    assert_eq!(p.delay_ms, 250);
    let p = hp.connection_plan(587);
    assert!(p.starttls_offered);
    let p = hp.connection_plan(2525);
    assert!(!p.implicit_tls && !p.starttls_offered);

    // without TLS material the dedicated port falls back to plaintext
    let mut opt = base_opt();
    opt.starttls = true;
    let hp = SmtpHoneypot::new(opt, false);
    let p = hp.connection_plan(465);
    assert!(!p.implicit_tls);
    assert!(p.plaintext_fallback);
    let p = hp.connection_plan(587);
    assert!(!p.starttls_offered);
}

#[test]
fn greeting_banner_marks_tls() {
    let hp = SmtpHoneypot::new(base_opt(), true);
    assert_eq!(hp.greeting_banner(false), "220 smtp.local SMTP Honeypot\r\n");
    assert_eq!(hp.greeting_banner(true), "220 smtp.local SMTP Honeypot (TLS)\r\n");
}
