use vstd::prelude::*;

pub mod commands;
pub mod handler;
pub mod laws;
pub mod logfmt;
pub mod ratelimiter;
pub mod session;
pub mod text;
pub mod tls;

verus! {

/// Runtime configuration of the honeypot, immutable after startup.
///
/// Paths are carried as plain strings; the surrounding program resolves
/// them against the file system.
pub struct Opt {
    pub daemon: bool,
    pub ports: Vec<u16>,
    pub address: String,
    pub domains: Vec<String>,
    pub valid_mailboxes: Vec<String>,
    pub open_relay: bool,
    pub helo: String,
    pub log_file: Option<String>,
    pub data_dir: Option<String>,
    pub max_connections_per_minute: usize,
    pub verbose: bool,
    pub raw_display: bool,
    pub tls_cert: Option<String>,
    pub tls_key: Option<String>,
    pub banner_delay: u64,
    pub starttls: bool,
}

/// Mathematical model of the configuration the protocol logic reads.
#[verifier::ext_equal]
pub struct CfgModel {
    pub banner: Seq<char>,
    pub domains: Seq<Seq<char>>,
    pub valid_mailboxes: Seq<Seq<char>>,
    pub open_relay: bool,
    pub starttls: bool,
    pub tls_available: bool,
    pub banner_delay: u64,
}

/// The deceptive SMTP service: configuration plus the recipient lists the
/// command processor consults. `tls_available` says whether a certificate
/// and key were successfully loaded at startup.
pub struct SmtpHoneypot {
    pub opt: Opt,
    pub valid_mailboxes: Vec<String>,
    pub tls_available: bool,
}

impl View for SmtpHoneypot {
    type V = CfgModel;

    open spec fn view(&self) -> CfgModel {
        CfgModel {
            banner: self.opt.helo@,
            domains: self.opt.domains.deep_view(),
            valid_mailboxes: self.valid_mailboxes.deep_view(),
            open_relay: self.opt.open_relay,
            starttls: self.opt.starttls,
            tls_available: self.tls_available,
            banner_delay: self.opt.banner_delay,
        }
    }
}

pub(crate) fn clone_strings(v: &Vec<String>) -> (r: Vec<String>)
    ensures
        r@ == v@,
{
    let mut r: Vec<String> = Vec::new();
    let mut i: usize = 0;
    while i < v.len()
        invariant
            i <= v@.len(),
            r@ == v@.take(i as int),
        decreases v@.len() - i,
    {
        r.push(v[i].clone());
        proof {
            assert(v@.take(i + 1) =~= v@.take(i as int).push(v@[i as int]));
        }
        i = i + 1;
    }
    proof {
        assert(v@.take(v@.len() as int) =~= v@);
    }
    r
}

impl SmtpHoneypot {
    /// A honeypot over the given configuration. The caller reports whether
    /// TLS material could be loaded; the valid-mailbox list is taken from
    /// the configuration.
    pub fn new(opt: Opt, tls_available: bool) -> (r: SmtpHoneypot)
        ensures
            r@ == (CfgModel {
                banner: opt.helo@,
                domains: opt.domains.deep_view(),
                valid_mailboxes: opt.valid_mailboxes.deep_view(),
                open_relay: opt.open_relay,
                starttls: opt.starttls,
                tls_available: tls_available,
                banner_delay: opt.banner_delay,
            }),
            r.opt == opt,
    {
        let valid_mailboxes = clone_strings(&opt.valid_mailboxes);
        let r = SmtpHoneypot { opt, valid_mailboxes, tls_available };
        proof {
            assert(r@ =~= (CfgModel {
                banner: r.opt.helo@,
                domains: r.opt.domains.deep_view(),
                valid_mailboxes: r.opt.valid_mailboxes.deep_view(),
                open_relay: r.opt.open_relay,
                starttls: r.opt.starttls,
                tls_available: tls_available,
                banner_delay: r.opt.banner_delay,
            }));
            assert(r.valid_mailboxes.deep_view() =~= r.opt.valid_mailboxes.deep_view());
        }
        r
    }
}

} // verus!
