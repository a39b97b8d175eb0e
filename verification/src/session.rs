use vstd::prelude::*;

verus! {

/// Mathematical model of one connection's protocol state.
#[verifier::ext_equal]
pub struct SessionModel {
    pub client_addr: Seq<char>,
    pub helo: Option<Seq<char>>,
    pub mail_from: Option<Seq<char>>,
    pub rcpt_to: Seq<Seq<char>>,
    pub data: Seq<Seq<char>>,
    pub authenticated: bool,
    pub tls_active: bool,
    pub starttls_enabled: bool,
    pub expecting_data: bool,
}

/// Per-connection SMTP state: greeting name, envelope, captured body lines,
/// and the transport flags. Owned by exactly one connection.
pub struct SmtpSession {
    pub client_addr: String,
    pub helo: Option<String>,
    pub mail_from: Option<String>,
    pub rcpt_to: Vec<String>,
    pub data: Vec<String>,
    pub authenticated: bool,
    pub tls_active: bool,
    pub starttls_enabled: bool,
    pub expecting_data: bool,
}

impl View for SmtpSession {
    type V = SessionModel;

    open spec fn view(&self) -> SessionModel {
        SessionModel {
            client_addr: self.client_addr@,
            helo: match self.helo {
                Some(h) => Some(h@),
                None => None,
            },
            mail_from: match self.mail_from {
                Some(m) => Some(m@),
                None => None,
            },
            rcpt_to: self.rcpt_to.deep_view(),
            data: self.data.deep_view(),
            authenticated: self.authenticated,
            tls_active: self.tls_active,
            starttls_enabled: self.starttls_enabled,
            expecting_data: self.expecting_data,
        }
    }
}

/// The model of a session when its transaction fields are empty.
pub open spec fn fresh_session(
    client_addr: Seq<char>,
    starttls_enabled: bool,
) -> SessionModel {
    SessionModel {
        client_addr: client_addr,
        helo: None,
        mail_from: None,
        rcpt_to: Seq::<Seq<char>>::empty(),
        data: Seq::<Seq<char>>::empty(),
        authenticated: false,
        tls_active: false,
        starttls_enabled: starttls_enabled,
        expecting_data: false,
    }
}

/// The model of a session after a transaction reset: envelope, body and the
/// body-capture flag cleared, everything else kept.
pub open spec fn reset_session(s: SessionModel) -> SessionModel {
    SessionModel {
        mail_from: None,
        rcpt_to: Seq::<Seq<char>>::empty(),
        data: Seq::<Seq<char>>::empty(),
        expecting_data: false,
        ..s
    }
}

impl SmtpSession {
    /// A new session with no greeting, an empty envelope and no body.
    pub fn new(client_addr: String, starttls_enabled: bool) -> (r: SmtpSession)
        ensures
            r@ == fresh_session(client_addr@, starttls_enabled),
    {
        let r = SmtpSession {
            client_addr,
            helo: None,
            mail_from: None,
            rcpt_to: Vec::new(),
            data: Vec::new(),
            authenticated: false,
            tls_active: false,
            starttls_enabled,
            expecting_data: false,
        };
        proof {
            assert(r@ =~= fresh_session(r.client_addr@, starttls_enabled));
        }
        r
    }

    /// Clears the transaction: envelope sender, recipients, body lines and
    /// the body-capture flag. The greeting name and the TLS flag survive.
    pub fn reset(&mut self)
        ensures
            final(self)@ == reset_session(old(self)@),
    {
        self.mail_from = None;
        self.rcpt_to.clear();
        self.data.clear();
        self.expecting_data = false;
        proof {
            assert(self@ =~= reset_session(old(self)@));
        }
    }

    /// Clears everything a client ever set, including the greeting name and
    /// the authentication flag; only the transport flags survive.
    pub fn reset_all(&mut self)
        ensures
            final(self)@ == (SessionModel {
                helo: None,
                mail_from: None,
                rcpt_to: Seq::<Seq<char>>::empty(),
                data: Seq::<Seq<char>>::empty(),
                authenticated: false,
                expecting_data: false,
                ..old(self)@
            }),
    {
        self.helo = None;
        self.mail_from = None;
        self.rcpt_to.clear();
        self.data.clear();
        self.authenticated = false;
        self.expecting_data = false;
        proof {
            assert(self@ =~= (SessionModel {
                helo: None,
                mail_from: None,
                rcpt_to: Seq::<Seq<char>>::empty(),
                data: Seq::<Seq<char>>::empty(),
                authenticated: false,
                expecting_data: false,
                ..old(self)@
            }));
        }
    }

    /// Records that the transport is now encrypted; nothing else changes.
    /// The flag never reverts.
    pub fn set_tls_active(&mut self)
        ensures
            final(self)@ == (SessionModel { tls_active: true, ..old(self)@ }),
    {
        self.tls_active = true;
        proof {
            assert(self@ =~= (SessionModel { tls_active: true, ..old(self)@ }));
        }
    }
}

} // verus!
