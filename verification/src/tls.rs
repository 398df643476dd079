//! The TLS frontend: turns PEM-encoded certificate-chain and private-key
//! material into a server TLS configuration.  Reading the files is the
//! surrounding process's concern; everything here works on the bytes.

use vstd::prelude::*;

verus! {

use crate::util::ShadowError;

/// The server TLS configuration type of the TLS implementation; opaque
/// here, carried through to the listener.
#[verifier::external_type_specification]
#[verifier::external_body]
pub struct ExServerConfig(rustls::ServerConfig);

/// What `rustls_pemfile::certs` extracts from PEM bytes: the DER contents
/// of each CERTIFICATE section, in order; `None` when the input is
/// malformed.  A function of the input bytes alone.
pub uninterp spec fn pem_certs_of(pem: Seq<u8>) -> Option<Seq<Seq<u8>>>;

/// Relies on `rustls_pemfile::certs`.
#[verifier::external_body]
fn parse_certs_pem(pem: &[u8]) -> (r: Option<Vec<Vec<u8>>>)
    ensures
        (r is Some) == (pem_certs_of(pem@) is Some),
        r matches Some(c) ==> pem_certs_of(pem@) matches Some(v) && c.deep_view() == v,
{
    let mut rd = pem;
    rustls_pemfile::certs(&mut rd).ok()
}

/// What `rustls_pemfile::pkcs8_private_keys` extracts from PEM bytes: the
/// DER contents of each PRIVATE KEY section, in order; `None` when the
/// input is malformed.  A function of the input bytes alone.
pub uninterp spec fn pem_keys_of(pem: Seq<u8>) -> Option<Seq<Seq<u8>>>;

/// Relies on `rustls_pemfile::pkcs8_private_keys`.
#[verifier::external_body]
fn parse_pkcs8_keys_pem(pem: &[u8]) -> (r: Option<Vec<Vec<u8>>>)
    ensures
        (r is Some) == (pem_keys_of(pem@) is Some),
        r matches Some(k) ==> pem_keys_of(pem@) matches Some(v) && k.deep_view() == v,
{
    let mut rd = pem;
    rustls_pemfile::pkcs8_private_keys(&mut rd).ok()
}

/// Whether the TLS implementation accepts the certificate chain and key
/// pair; a function of the DER bytes alone.
pub uninterp spec fn tls_accepts(cert_ders: Seq<Seq<u8>>, key_der: Seq<u8>) -> bool;

/// Relies on `rustls::ServerConfig`'s builder with safe defaults, no
/// client authentication, and `with_single_cert`, which checks the
/// certificate chain against the key and rejects mismatched material.
#[verifier::external_body]
fn build_server_config(cert_ders: Vec<Vec<u8>>, key_der: Vec<u8>) -> (r: Option<
    rustls::ServerConfig,
>)
    ensures
        (r is Some) == tls_accepts(cert_ders.deep_view(), key_der@),
{
    let chain = cert_ders.into_iter().map(rustls::Certificate).collect();
    let key = rustls::PrivateKey(key_der);
    rustls::ServerConfig::builder()
        .with_safe_defaults()
        .with_no_client_auth()
        .with_single_cert(chain, key)
        .ok()
}

/// The PEM material yields a configuration: both sections parse, neither
/// is empty, and the TLS implementation accepts the pair (first key).
pub open spec fn spec_tls_material_ok(cert_pem: Seq<u8>, key_pem: Seq<u8>) -> bool {
    &&& pem_certs_of(cert_pem) matches Some(c)
    &&& c.len() > 0
    &&& pem_keys_of(key_pem) matches Some(k)
    &&& k.len() > 0
    &&& tls_accepts(c, k[0])
}

/// The failure detail owed for the given material, checked in order:
/// certificate parse, certificate presence, key parse, key presence, and
/// finally acceptance of the pair.
pub open spec fn spec_tls_error_detail(cert_pem: Seq<u8>, key_pem: Seq<u8>) -> Seq<char> {
    match pem_certs_of(cert_pem) {
        None => "failed to parse certs"@,
        Some(c) => if c.len() == 0 {
            "no certificates found in cert file"@
        } else {
            match pem_keys_of(key_pem) {
                None => "failed to parse private key"@,
                Some(k) => if k.len() == 0 {
                    "no private keys found in key file"@
                } else {
                    "tls config error: certificate or key rejected"@
                },
            }
        },
    }
}

/// Produces the server TLS configuration from PEM-encoded certificate and
/// key material.  Every failure is fatal at startup: malformed or empty
/// certificate or key material, or a pair the TLS implementation rejects.
/// The first private key is used when several are present.
pub fn load_rustls_config(cert_pem: &[u8], key_pem: &[u8]) -> (r: Result<
    rustls::ServerConfig,
    ShadowError,
>)
    ensures
        (r is Ok) == spec_tls_material_ok(cert_pem@, key_pem@),
        r matches Err(e) ==> (e matches ShadowError::TlsConfig(d) && d@ == spec_tls_error_detail(
            cert_pem@,
            key_pem@,
        )),
{
    let cert_ders = match parse_certs_pem(cert_pem) {
        Some(c) => c,
        None => {
            return Err(ShadowError::TlsConfig("failed to parse certs".to_owned()));
        },
    };
    if cert_ders.is_empty() {
        return Err(ShadowError::TlsConfig("no certificates found in cert file".to_owned()));
    }
    let mut key_ders = match parse_pkcs8_keys_pem(key_pem) {
        Some(k) => k,
        None => {
            return Err(ShadowError::TlsConfig("failed to parse private key".to_owned()));
        },
    };
    if key_ders.is_empty() {
        return Err(ShadowError::TlsConfig("no private keys found in key file".to_owned()));
    }
    let ghost pre_keys = key_ders@;
    let ghost pre_keys_dv = key_ders.deep_view();
    let key = key_ders.remove(0);
    proof {
        assert(key == pre_keys[0]);
        assert(pre_keys_dv[0] == pre_keys[0].deep_view());
        assert(key@ == pre_keys_dv[0]);
    }
    match build_server_config(cert_ders, key) {
        Some(cfg) => Ok(cfg),
        None => Err(
            ShadowError::TlsConfig("tls config error: certificate or key rejected".to_owned()),
        ),
    }
}

} // verus!
