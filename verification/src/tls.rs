//! What the TLS listener is set up with: the certificate chain and the
//! private key read from PEM text, the protocols offered, and the digest
//! under which a certificate is published.

use vstd::prelude::*;
use crate::conf::ServerConf;
use crate::error::{Error, ProxyError, TlsError};
use crate::text::{concat2, concat3, hex_of_bytes, to_hex};

verus! {

/// The SHA3-256 digest of `data`, as the `sha3` crate computes it.
pub uninterp spec fn sha3_256(data: Seq<u8>) -> Seq<u8>;

/// What `rustls_pemfile::certs` reads from PEM text: the certificates in
/// DER form, in order, or the message of the error.
pub uninterp spec fn pem_certs(pem: Seq<u8>) -> Result<Seq<Seq<u8>>, Seq<char>>;

/// What `rustls_pemfile::rsa_private_keys` reads from PEM text.
pub uninterp spec fn pem_rsa_keys(pem: Seq<u8>) -> Result<Seq<Seq<u8>>, Seq<char>>;

/// What `rustls_pemfile::pkcs8_private_keys` reads from PEM text.
pub uninterp spec fn pem_pkcs8_keys(pem: Seq<u8>) -> Result<Seq<Seq<u8>>, Seq<char>>;

/// The contents of each byte vector of `items`.
pub open spec fn contents(items: Seq<Vec<u8>>) -> Seq<Seq<u8>> {
    Seq::new(items.len(), |i: int| items[i]@)
}

/// The view of what was read from PEM text.
pub open spec fn read_view(r: Result<Vec<Vec<u8>>, String>) -> Result<Seq<Seq<u8>>, Seq<char>> {
    match r {
        Ok(items) => Ok(contents(items@)),
        Err(e) => Err(e@),
    }
}

/// Feeds `data` to a `sha3::Sha3_256` hasher (`update`, then `finalize`):
/// the result is the named digest [`sha3_256`] of the data, and it has the
/// 32 bytes that the type of the hasher fixes as its output size.
#[verifier::external_body]
fn sha3_digest(data: &[u8]) -> (r: Vec<u8>)
    ensures
        r@ == sha3_256(data@),
        r@.len() == 32,
{
    let mut hasher = sha3::Sha3_256::default();
    sha3::Digest::update(&mut hasher, data);
    sha3::Digest::finalize(hasher).to_vec()
}

/// Calls `rustls_pemfile::certs` on the text: the result is the named value
/// [`pem_certs`] of it, an error carried by its message.
#[verifier::external_body]
fn parse_certs(pem: &[u8]) -> (r: Result<Vec<Vec<u8>>, String>)
    ensures
        read_view(r) == pem_certs(pem@),
{
    let mut reader = pem;
    match rustls_pemfile::certs(&mut reader) {
        Ok(items) => Ok(items),
        Err(e) => Err(e.to_string()),
    }
}

/// Calls `rustls_pemfile::rsa_private_keys` on the text: the result is the
/// named value [`pem_rsa_keys`] of it.
#[verifier::external_body]
fn parse_rsa_keys(pem: &[u8]) -> (r: Result<Vec<Vec<u8>>, String>)
    ensures
        read_view(r) == pem_rsa_keys(pem@),
{
    let mut reader = pem;
    match rustls_pemfile::rsa_private_keys(&mut reader) {
        Ok(items) => Ok(items),
        Err(e) => Err(e.to_string()),
    }
}

/// Calls `rustls_pemfile::pkcs8_private_keys` on the text: the result is the
/// named value [`pem_pkcs8_keys`] of it.
#[verifier::external_body]
fn parse_pkcs8_keys(pem: &[u8]) -> (r: Result<Vec<Vec<u8>>, String>)
    ensures
        read_view(r) == pem_pkcs8_keys(pem@),
{
    let mut reader = pem;
    match rustls_pemfile::pkcs8_private_keys(&mut reader) {
        Ok(items) => Ok(items),
        Err(e) => Err(e.to_string()),
    }
}

/// The published form of a digest written in hexadecimal: `sha3:`, a `0`
/// when the number of digits is odd, and the digits.
pub open spec fn hash_label(hex: Seq<char>) -> Seq<char> {
    if hex.len() % 2 == 1 {
        "sha3:0"@ + hex
    } else {
        "sha3:"@ + hex
    }
}

/// Writes the published form of a digest given in hexadecimal.
pub fn label_digest(hex: &str) -> (r: String)
    ensures
        r@ == hash_label(hex@),
{
    if hex.unicode_len() % 2 == 1 {
        concat2("sha3:0", hex)
    } else {
        concat2("sha3:", hex)
    }
}

/// The published digest of a certificate file with the given contents.
pub open spec fn cert_digest(contents: Seq<u8>) -> Seq<char> {
    hash_label(hex_of_bytes(sha3_256(contents)))
}

/// The text of the error for a certificate file that could not be read.
pub open spec fn unreadable_cert(path: Seq<char>, reason: Seq<char>) -> Seq<char> {
    "Unable to read the certificate file '"@ + path + "': "@ + reason
}

/// Lemma: each byte is written as two digits.
pub proof fn lemma_hex_len(bytes: Seq<u8>)
    ensures
        hex_of_bytes(bytes).len() == 2 * bytes.len(),
    decreases bytes.len(),
{
    if bytes.len() > 0 {
        lemma_hex_len(bytes.drop_last());
    }
}

/// Computes the published digest of the certificate file at `path`, given
/// what reading the file brought: its contents, or the reason why it could
/// not be read. The digest is published as `sha3:` and 64 digits; no zero
/// is put in front, the number of digits being even.
pub fn cert_hash(path: &str, file: &Result<Vec<u8>, String>) -> (r: Result<String, ProxyError>)
    ensures
        match *file {
            Ok(contents) => r matches Ok(h) && h@ == cert_digest(contents@) && h@ == "sha3:"@
                + hex_of_bytes(sha3_256(contents@)) && hex_of_bytes(sha3_256(contents@)).len()
                == 64,
            Err(reason) => r matches Err(ProxyError::Conf(m)) && m@ == unreadable_cert(
                path@,
                reason@,
            ),
        },
{
    match file {
        Ok(contents) => {
            let digest = sha3_digest(contents.as_slice());
            let hex = to_hex(digest.as_slice());
            proof {
                lemma_hex_len(digest@);
            }
            Ok(label_digest(hex.as_str()))
        },
        Err(reason) => {
            let mut m = concat3("Unable to read the certificate file '", path, "': ");
            m.append(reason.as_str());
            Err(ProxyError::Conf(m))
        },
    }
}

/// Whether `r` is the server key error with the given text.
pub open spec fn is_key_error<T>(r: Result<T, Error>, text: Seq<char>) -> bool {
    r matches Err(Error::Tls(TlsError::ServerCertKey(m))) && m@ == text
}

/// Whether `r` is the server certificate error with the given text.
pub open spec fn is_store_error<T>(r: Result<T, Error>, text: Seq<char>) -> bool {
    r matches Err(Error::Tls(TlsError::ServerCertStore(m))) && m@ == text
}

/// The text of the error for a file that could not be read as PEM.
pub open spec fn unreadable(path: Seq<char>, reason: Seq<char>) -> Seq<char> {
    "error reading '"@ + path + "': "@ + reason
}

/// Whether `r` is the key chosen among `keys`: the one key when there is
/// exactly one, and an error otherwise.
pub open spec fn is_single_key(r: Result<Vec<u8>, Error>, keys: Seq<Seq<u8>>) -> bool {
    if keys.len() == 0 {
        is_key_error(r, "missing server private key"@)
    } else if keys.len() > 1 {
        is_key_error(r, "expected a single private key"@)
    } else {
        r matches Ok(key) && key@ == keys[0]
    }
}

/// The text of the error for a file that could not be opened.
pub fn cannot_open(path: &str, reason: &str) -> (r: String)
    ensures
        r@ == "cannot open '"@ + path@ + "': "@ + reason@,
{
    let mut m = concat3("cannot open '", path, "': ");
    m.append(reason);
    m
}

/// The text of the error for a file that could not be read.
pub fn error_reading(path: &str, reason: &str) -> (r: String)
    ensures
        r@ == unreadable(path@, reason@),
{
    let mut m = concat3("error reading '", path, "': ");
    m.append(reason);
    m
}

/// Reads the certificate chain from the PEM text of the file at `path`.
pub fn read_cert_store(path: &str, pem: &[u8]) -> (r: Result<Vec<Vec<u8>>, Error>)
    ensures
        match pem_certs(pem@) {
            Ok(certs) => r matches Ok(v) && contents(v@) == certs,
            Err(reason) => is_store_error(r, unreadable(path@, reason)),
        },
{
    match parse_certs(pem) {
        Ok(certs) => Ok(certs),
        Err(e) => Err(Error::Tls(TlsError::ServerCertStore(error_reading(path, e.as_str())))),
    }
}

/// The private key among the keys found in a file: there must be exactly one.
pub fn single_key(keys: Vec<Vec<u8>>) -> (r: Result<Vec<u8>, Error>)
    ensures
        is_single_key(r, contents(keys@)),
{
    let mut keys = keys;
    if keys.len() == 0 {
        Err(Error::Tls(TlsError::ServerCertKey("missing server private key".to_owned())))
    } else if keys.len() > 1 {
        Err(Error::Tls(TlsError::ServerCertKey("expected a single private key".to_owned())))
    } else {
        Ok(keys.remove(0))
    }
}

/// The keys that count in PEM text: the RSA keys, or the PKCS#8 keys when
/// there is no RSA key.
pub open spec fn pem_keys(pem: Seq<u8>) -> Result<Seq<Seq<u8>>, Seq<char>> {
    match pem_rsa_keys(pem) {
        Ok(keys) if keys.len() == 0 => pem_pkcs8_keys(pem),
        other => other,
    }
}

/// Reads the private key from the PEM text of the file at `path`: RSA keys
/// are looked for first, then PKCS#8 keys, and exactly one key must be there.
pub fn read_cert_key(path: &str, pem: &[u8]) -> (r: Result<Vec<u8>, Error>)
    ensures
        match pem_keys(pem@) {
            Ok(keys) => is_single_key(r, keys),
            Err(reason) => is_key_error(r, unreadable(path@, reason)),
        },
{
    let mut keys = match parse_rsa_keys(pem) {
        Ok(keys) => keys,
        Err(e) => {
            return Err(Error::Tls(TlsError::ServerCertKey(error_reading(path, e.as_str()))));
        },
    };
    if keys.len() == 0 {
        keys = match parse_pkcs8_keys(pem) {
            Ok(keys) => keys,
            Err(e) => {
                return Err(Error::Tls(TlsError::ServerCertKey(error_reading(path, e.as_str()))));
            },
        };
    }
    single_key(keys)
}

/// The application protocols offered in the TLS handshake.
#[derive(Clone, Copy, Debug, PartialEq, Eq, Structural)]
pub enum Alpn {
    /// `http/1.1` alone.
    Http1,
    /// `h2` alone.
    Http2,
    /// `h2`, then `http/1.1`.
    Both,
}

impl Alpn {
    /// The protocols offered under a server configuration: HTTP/1.1 alone
    /// where the server is restricted to HTTP/1, else HTTP/2 alone where it
    /// is restricted to HTTP/2, else both.
    pub open spec fn of(conf: ServerConf) -> Alpn {
        if conf.http1_only == Some(true) {
            Alpn::Http1
        } else if conf.server_common.http2_only == Some(true) {
            Alpn::Http2
        } else {
            Alpn::Both
        }
    }

    /// Chooses the protocols to offer.
    pub fn select(conf: &ServerConf) -> (r: Alpn)
        ensures
            r == Alpn::of(*conf),
    {
        let http1_only = match conf.http1_only {
            Some(b) => b,
            None => false,
        };
        let http2_only = match conf.server_common.http2_only {
            Some(b) => b,
            None => false,
        };
        if http1_only {
            Alpn::Http1
        } else if http2_only {
            Alpn::Http2
        } else {
            Alpn::Both
        }
    }

    /// The names of the protocols, in the order of preference.
    pub fn protocols(&self) -> (r: Vec<&'static str>)
        ensures
            match *self {
                Alpn::Http1 => r@.len() == 1 && r@[0]@ == "http/1.1"@,
                Alpn::Http2 => r@.len() == 1 && r@[0]@ == "h2"@,
                Alpn::Both => r@.len() == 2 && r@[0]@ == "h2"@ && r@[1]@ == "http/1.1"@,
            },
    {
        let mut r: Vec<&'static str> = Vec::new();
        match self {
            Alpn::Http1 => {
                r.push("http/1.1");
            },
            Alpn::Http2 => {
                r.push("h2");
            },
            Alpn::Both => {
                r.push("h2");
                r.push("http/1.1");
            },
        }
        r
    }
}

/// What the TLS listener is set up with.
pub struct TlsSetup {
    /// The certificate chain, each certificate in DER form.
    pub certs: Vec<Vec<u8>>,
    /// The private key, in DER form.
    pub key: Vec<u8>,
    /// The protocols to offer.
    pub alpn: Alpn,
}

/// Puts together what the TLS listener needs, from the configuration and
/// the PEM text of the certificate file and of the key file. A path that is
/// not set is an error, and so is a file that cannot be read as PEM or a key
/// file that does not hold exactly one key.
pub fn read_tls_conf(conf: &ServerConf, cert_pem: &[u8], key_pem: &[u8]) -> (r: Result<
    TlsSetup,
    Error,
>)
    ensures
        match conf.server_cert.server_cert_store_path {
            None => is_store_error(r, "path not set"@),
            Some(path) => match pem_certs(cert_pem@) {
                Err(reason) => is_store_error(r, unreadable(path@, reason)),
                Ok(certs) => match conf.server_cert.server_key_path {
                    None => is_key_error(r, "path not set"@),
                    Some(key_path) => match pem_keys(key_pem@) {
                        Err(reason) => is_key_error(r, unreadable(key_path@, reason)),
                        Ok(keys) => if keys.len() == 1 {
                            r matches Ok(setup) && contents(setup.certs@) == certs && setup.key@
                                == keys[0] && setup.alpn == Alpn::of(*conf)
                        } else if keys.len() == 0 {
                            is_key_error(r, "missing server private key"@)
                        } else {
                            is_key_error(r, "expected a single private key"@)
                        },
                    },
                },
            },
        },
{
    let certs = match &conf.server_cert.server_cert_store_path {
        Some(path) => match read_cert_store(path.as_str(), cert_pem) {
            Ok(certs) => certs,
            Err(e) => {
                return Err(e);
            },
        },
        None => {
            return Err(Error::Tls(TlsError::ServerCertStore("path not set".to_owned())));
        },
    };
    let key = match &conf.server_cert.server_key_path {
        Some(path) => match read_cert_key(path.as_str(), key_pem) {
            Ok(key) => key,
            Err(e) => {
                return Err(e);
            },
        },
        None => {
            return Err(Error::Tls(TlsError::ServerCertKey("path not set".to_owned())));
        },
    };
    Ok(TlsSetup { certs, key, alpn: Alpn::select(conf) })
}

/// How an event of the accept loop is logged.
#[derive(Clone, Copy, Debug, PartialEq, Eq, Structural)]
pub enum LogLevel {
    Debug,
    Warn,
    Error,
}

/// What the accept loop does after an error.
#[derive(Clone, Copy, Debug, PartialEq, Eq, Structural)]
pub struct AcceptDecision {
    /// The level at which the error is logged.
    pub level: LogLevel,
    /// Whether the loop goes on accepting.
    pub go_on: bool,
}

/// The decision after `accept` failed: while the listener still has its
/// local address the error is the client's, it is logged for debugging and
/// the loop goes on; otherwise it is logged as an error and the loop ends.
pub fn on_accept_error(listener_alive: bool) -> (r: AcceptDecision)
    ensures
        r.go_on == listener_alive,
        r.level == if listener_alive {
            LogLevel::Debug
        } else {
            LogLevel::Error
        },
{
    if listener_alive {
        AcceptDecision { level: LogLevel::Debug, go_on: true }
    } else {
        AcceptDecision { level: LogLevel::Error, go_on: false }
    }
}

/// The decision after a TLS handshake failed: the connection is dropped with
/// a warning and the loop goes on.
pub fn on_handshake_error() -> (r: AcceptDecision)
    ensures
        r.go_on,
        r.level == LogLevel::Warn,
{
    AcceptDecision { level: LogLevel::Warn, go_on: true }
}

} // verus!
