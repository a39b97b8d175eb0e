use vstd::prelude::*;

use crate::Opt;

verus! {

/// What the PEM certificate parser extracts from a byte buffer: the DER
/// bodies of its certificate sections in order, or a parse failure. A
/// function of the bytes alone.
pub uninterp spec fn pem_certs_of(data: Seq<u8>) -> Result<Seq<Seq<u8>>, ()>;

/// What the PEM key parser extracts from a byte buffer: the DER bodies of
/// its PKCS#8 private-key sections in order, or a parse failure. A
/// function of the bytes alone.
pub uninterp spec fn pem_pkcs8_keys_of(data: Seq<u8>) -> Result<Seq<Seq<u8>>, ()>;

/// Relies on rustls_pemfile::certs: reads a PEM buffer and returns the
/// DER contents of its certificate sections, in order; it fails only when
/// a section is malformed.
#[verifier::external_body]
fn parse_pem_certs(data: &Vec<u8>) -> (r: Result<Vec<Vec<u8>>, ()>)
    ensures
        (match r {
            Ok(certs) => pem_certs_of(data@) == Ok::<Seq<Seq<u8>>, ()>(certs.deep_view()),
            Err(e) => pem_certs_of(data@) == Err::<Seq<Seq<u8>>, ()>(e),
        }),
{
    match rustls_pemfile::certs(&mut data.as_slice()) {
        Ok(certs) => Ok(certs),
        Err(_) => Err(()),
    }
}

/// Relies on rustls_pemfile::pkcs8_private_keys: reads a PEM buffer and
/// returns the DER contents of its PKCS#8 private-key sections, in order;
/// it fails only when a section is malformed.
#[verifier::external_body]
fn parse_pem_pkcs8_keys(data: &Vec<u8>) -> (r: Result<Vec<Vec<u8>>, ()>)
    ensures
        (match r {
            Ok(keys) => pem_pkcs8_keys_of(data@) == Ok::<Seq<Seq<u8>>, ()>(keys.deep_view()),
            Err(e) => pem_pkcs8_keys_of(data@) == Err::<Seq<Seq<u8>>, ()>(e),
        }),
{
    match rustls_pemfile::pkcs8_private_keys(&mut data.as_slice()) {
        Ok(keys) => Ok(keys),
        Err(_) => Err(()),
    }
}

/// Why configured TLS material cannot be used; each case is fatal at
/// startup.
#[derive(Clone, Copy, Debug, PartialEq, Eq, Structural)]
pub enum TlsConfigError {
    /// Only one of the certificate path and the key path is configured.
    IncompletePair,
    /// The certificate buffer failed to parse.
    CertParse,
    /// The private-key buffer failed to parse.
    KeyParse,
    /// No private-key section was found in the key buffer.
    NoKey,
}

/// One loaded certificate chain and one private key, both as DER bytes.
pub struct TlsMaterial {
    pub certs: Vec<Vec<u8>>,
    pub key: Vec<u8>,
}

/// Parses the configured certificate and key buffers. Succeeds exactly
/// when both parse and the key buffer holds at least one private key; the
/// chain is every certificate section, the key is the first key section.
pub fn load_tls_material(cert_pem: &Vec<u8>, key_pem: &Vec<u8>) -> (r: Result<
    TlsMaterial,
    TlsConfigError,
>)
    ensures
        (match r {
            Ok(m) => {
                &&& pem_certs_of(cert_pem@) == Ok::<Seq<Seq<u8>>, ()>(m.certs.deep_view())
                &&& pem_pkcs8_keys_of(key_pem@) matches Ok(ks) && ks.len() > 0 && m.key@ == ks[0]
            },
            Err(e) => match e {
                TlsConfigError::CertParse => pem_certs_of(cert_pem@) is Err,
                TlsConfigError::KeyParse => pem_certs_of(cert_pem@) is Ok && pem_pkcs8_keys_of(
                    key_pem@,
                ) is Err,
                TlsConfigError::NoKey => pem_certs_of(cert_pem@) is Ok && (pem_pkcs8_keys_of(
                    key_pem@,
                ) matches Ok(ks) && ks.len() == 0),
                TlsConfigError::IncompletePair => false,
            },
        }),
{
    let certs = match parse_pem_certs(cert_pem) {
        Ok(c) => c,
        Err(_) => {
            return Err(TlsConfigError::CertParse);
        },
    };
    let mut keys = match parse_pem_pkcs8_keys(key_pem) {
        Ok(k) => k,
        Err(_) => {
            return Err(TlsConfigError::KeyParse);
        },
    };
    if keys.len() == 0 {
        return Err(TlsConfigError::NoKey);
    }
    let ghost kv = keys.deep_view();
    let key = keys.remove(0);
    proof {
        assert(kv[0] == key@);
    }
    Ok(TlsMaterial { certs, key })
}

/// The configured certificate and key paths, when TLS is configured at
/// all. A half-configured pair is a startup error.
pub fn tls_paths(opt: &Opt) -> (r: Result<Option<(String, String)>, TlsConfigError>)
    ensures
        (match r {
            Ok(Some(pair)) => opt.tls_cert matches Some(c) && pair.0@ == c@ && (
            opt.tls_key matches Some(k) && pair.1@ == k@),
            Ok(None) => opt.tls_cert is None && opt.tls_key is None,
            Err(e) => e == TlsConfigError::IncompletePair && (opt.tls_cert is Some)
                != (opt.tls_key is Some),
        }),
{
    match (&opt.tls_cert, &opt.tls_key) {
        (Some(c), Some(k)) => Ok(Some((c.clone(), k.clone()))),
        (None, None) => Ok(None),
        _ => Err(TlsConfigError::IncompletePair),
    }
}

/// Whether the configuration names a port that conventionally expects TLS,
/// which deserves a warning when no material is configured.
pub fn wants_tls_ports(opt: &Opt) -> (r: bool)
    ensures
        r == (opt.ports@.contains(465u16) || opt.ports@.contains(587u16)),
{
    let mut i: usize = 0;
    while i < opt.ports.len()
        invariant
            i <= opt.ports@.len(),
            forall|j: int| 0 <= j < i ==> opt.ports@[j] != 465u16 && opt.ports@[j] != 587u16,
        decreases opt.ports@.len() - i,
    {
        let p = opt.ports[i];
        if p == 465 || p == 587 {
            proof {
                assert(opt.ports@[i as int] == p);
            }
            return true;
        }
        i = i + 1;
    }
    proof {
        assert(!opt.ports@.contains(465u16));
        assert(!opt.ports@.contains(587u16));
    }
    false
}

} // verus!
