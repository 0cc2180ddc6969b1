//! Protocol negotiation: which HTTP versions the proxy offers over TLS, and
//! which one a handshake settled on.
//!
//! Loading certificates from disk and building the TLS machinery happen in
//! the program around the library; the settings and decisions are here.

use crate::text::owned;
use vstd::prelude::*;

verus! {

/// Supported HTTP protocols for the proxy.
#[derive(Debug, Clone, Copy, PartialEq, Eq, Structural)]
pub enum HttpProtocol {
    /// HTTP/1.1 protocol
    Http1,
    /// HTTP/2 protocol
    Http2,
    /// Auto-negotiate based on ALPN (prefers HTTP/2)
    Auto,
}

impl Default for HttpProtocol {
    fn default() -> (p: Self)
        ensures
            p == HttpProtocol::Http2,
    {
        HttpProtocol::Http2
    }
}

/// The ALPN identifier of HTTP/2: `h2`.
pub open spec fn alpn_h2() -> Seq<u8> {
    seq![0x68u8, 0x32u8]
}

/// The ALPN identifier of HTTP/1.1: `http/1.1`.
pub open spec fn alpn_http11() -> Seq<u8> {
    seq![0x68u8, 0x74u8, 0x74u8, 0x70u8, 0x2fu8, 0x31u8, 0x2eu8, 0x31u8]
}

/// The ALPN identifiers offered for a protocol, most preferred first.
pub open spec fn alpn_ids(p: HttpProtocol) -> Seq<Seq<u8>> {
    match p {
        HttpProtocol::Http1 => seq![alpn_http11()],
        HttpProtocol::Http2 => seq![alpn_h2()],
        HttpProtocol::Auto => seq![alpn_h2(), alpn_http11()],
    }
}

/// The protocol a negotiated ALPN identifier selects: HTTP/2 for `h2`,
/// HTTP/1.1 for anything else or for no identifier.
pub open spec fn protocol_of_alpn(alpn: Option<Seq<u8>>) -> HttpProtocol {
    match alpn {
        Some(id) => if id == alpn_h2() {
            HttpProtocol::Http2
        } else {
            HttpProtocol::Http1
        },
        None => HttpProtocol::Http1,
    }
}

/// The views of a list of byte vectors.
pub open spec fn byte_views(v: Seq<Vec<u8>>) -> Seq<Seq<u8>> {
    Seq::new(v.len(), |i: int| v[i]@)
}

fn h2_id() -> (v: Vec<u8>)
    ensures
        v@ == alpn_h2(),
{
    let v: Vec<u8> = vec![0x68u8, 0x32u8];
    assert(v@ =~= alpn_h2());
    v
}

fn http11_id() -> (v: Vec<u8>)
    ensures
        v@ == alpn_http11(),
{
    let v: Vec<u8> = vec![0x68u8, 0x74u8, 0x74u8, 0x70u8, 0x2fu8, 0x31u8, 0x2eu8, 0x31u8];
    assert(v@ =~= alpn_http11());
    v
}

impl HttpProtocol {
    /// Returns the ALPN protocol identifiers for this protocol.
    pub fn alpn_protocols(&self) -> (r: Vec<Vec<u8>>)
        ensures
            byte_views(r@) == alpn_ids(*self),
    {
        let mut r: Vec<Vec<u8>> = Vec::new();
        match self {
            HttpProtocol::Http1 => {
                r.push(http11_id());
            },
            HttpProtocol::Http2 => {
                r.push(h2_id());
            },
            HttpProtocol::Auto => {
                r.push(h2_id());
                r.push(http11_id());
            },
        }
        assert(byte_views(r@) =~= alpn_ids(*self));
        r
    }

    /// Determines the protocol from ALPN negotiation result.
    pub fn from_alpn(alpn: Option<&[u8]>) -> (p: Self)
        ensures
            p == protocol_of_alpn(
                match alpn {
                    Some(a) => Some(a@),
                    None => None,
                },
            ),
    {
        match alpn {
            Some(a) => {
                if a.len() == 2 && a[0] == 0x68u8 && a[1] == 0x32u8 {
                    assert(a@ =~= alpn_h2());
                    HttpProtocol::Http2
                } else {
                    assert(a@ != alpn_h2()) by {
                        if a@ == alpn_h2() {
                            assert(a@[0] == 0x68u8 && a@[1] == 0x32u8);
                        }
                    }
                    HttpProtocol::Http1
                }
            },
            None => HttpProtocol::Http1,
        }
    }
}

/// The protocol served on an accepted connection: over TLS, the one the
/// handshake negotiated (`tls_alpn` holds its ALPN identifier, if any);
/// without TLS, HTTP/2 with prior knowledge when that is the default, else
/// HTTP/1.1.
pub open spec fn served_protocol(default_protocol: HttpProtocol, tls_alpn: Option<Option<Seq<u8>>>) -> HttpProtocol {
    match tls_alpn {
        Some(alpn) => protocol_of_alpn(alpn),
        None => if default_protocol == HttpProtocol::Http2 {
            HttpProtocol::Http2
        } else {
            HttpProtocol::Http1
        },
    }
}

/// The protocol served on an accepted connection.
pub fn connection_protocol(default_protocol: HttpProtocol, tls_alpn: Option<Option<&[u8]>>) -> (p:
    HttpProtocol)
    ensures
        p == served_protocol(
            default_protocol,
            match tls_alpn {
                Some(Some(a)) => Some(Some(a@)),
                Some(None) => Some(None),
                None => None,
            },
        ),
{
    match tls_alpn {
        Some(alpn) => HttpProtocol::from_alpn(alpn),
        None => match default_protocol {
            HttpProtocol::Http2 => HttpProtocol::Http2,
            _ => HttpProtocol::Http1,
        },
    }
}

/// TLS configuration for the proxy.
#[derive(Debug, Clone)]
pub struct TlsConfig {
    /// Path to the certificate file (PEM format)
    pub cert_path: String,
    /// Path to the private key file (PEM format)
    pub key_path: String,
    /// Preferred HTTP protocol for negotiation
    pub protocol: HttpProtocol,
}

impl TlsConfig {
    /// Creates a new TLS configuration, offering both protocols.
    pub fn new(cert_path: &str, key_path: &str) -> (c: Self)
        ensures
            c.cert_path@ == cert_path@,
            c.key_path@ == key_path@,
            c.protocol == HttpProtocol::Auto,
    {
        TlsConfig {
            cert_path: owned(cert_path),
            key_path: owned(key_path),
            protocol: HttpProtocol::Auto,
        }
    }

    /// Sets the preferred HTTP protocol.
    pub fn with_protocol(self, protocol: HttpProtocol) -> (c: Self)
        ensures
            c.cert_path == self.cert_path,
            c.key_path == self.key_path,
            c.protocol == protocol,
    {
        TlsConfig { protocol, ..self }
    }
}

/// Client TLS configuration for connecting to upstream servers.
#[derive(Debug, Clone)]
pub struct ClientTlsConfig {
    /// Whether to verify server certificates
    pub verify_server: bool,
    /// Optional client certificate for mTLS
    pub client_cert: Option<String>,
    /// Optional client key for mTLS
    pub client_key: Option<String>,
}

impl Default for ClientTlsConfig {
    fn default() -> (c: Self)
        ensures
            c.verify_server,
            c.client_cert is None,
            c.client_key is None,
    {
        ClientTlsConfig { verify_server: true, client_cert: None, client_key: None }
    }
}

impl ClientTlsConfig {
    /// Creates a new client TLS configuration that verifies servers and
    /// presents no client certificate.
    pub fn new() -> (c: Self)
        ensures
            c.verify_server,
            c.client_cert is None,
            c.client_key is None,
    {
        Self::default()
    }

    /// Disables server certificate verification (not recommended for
    /// production).
    pub fn danger_accept_invalid_certs(self) -> (c: Self)
        ensures
            !c.verify_server,
            c.client_cert == self.client_cert,
            c.client_key == self.client_key,
    {
        ClientTlsConfig { verify_server: false, ..self }
    }

    /// Sets client certificate for mTLS.
    pub fn with_client_cert(self, cert_path: String, key_path: String) -> (c: Self)
        ensures
            c.verify_server == self.verify_server,
            c.client_cert == Some(cert_path),
            c.client_key == Some(key_path),
    {
        ClientTlsConfig { client_cert: Some(cert_path), client_key: Some(key_path), ..self }
    }

    /// Whether a client certificate is to be presented: only when both the
    /// certificate and its key are set.
    pub fn presents_client_cert(&self) -> (r: bool)
        ensures
            r == (self.client_cert is Some && self.client_key is Some),
    {
        self.client_cert.is_some() && self.client_key.is_some()
    }
}

} // verus!
