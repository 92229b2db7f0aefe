//! The errors of the proxy, by kind, and the text of each.

use vstd::prelude::*;
use crate::addr::{Addresses, SocketAddress};
use crate::text::{concat2, concat3};

verus! {

/// Failures while reading certificates and keys.
#[derive(Clone, Debug, PartialEq, Eq)]
pub enum TlsError {
    ClientCertStore(String),
    ServerCertStore(String),
    ServerCertKey(String),
    Other(String),
}

/// Failures of the management server itself.
#[derive(Clone, Debug, PartialEq, Eq)]
pub enum ManagementError {
    NotRunning,
    Bind { address: SocketAddress, message: String },
}

/// Failures of a proxy instance.
#[derive(Clone, Debug, PartialEq, Eq)]
pub enum ProxyError {
    AlreadyRunning(Addresses),
    Runtime(String),
    Conf(String),
}

/// Failures of operations on services.
#[derive(Clone, Debug, PartialEq, Eq)]
pub enum ServiceError {
    AlreadyExists { name: String, endpoint: String },
    NotFound(String),
}

/// Failures of operations on users.
#[derive(Clone, Debug, PartialEq, Eq)]
pub enum UserError {
    AlreadyExists(String),
    NotFound(String),
}

/// Any failure of the proxy. `Io` and `Url` carry the message of the
/// underlying error.
#[derive(Clone, Debug, PartialEq, Eq)]
pub enum Error {
    Io(String),
    Url(String),
    Tls(TlsError),
    Management(ManagementError),
    Proxy(ProxyError),
    Service(ServiceError),
    User(UserError),
    Other(String),
}

impl TlsError {
    /// The text of the error.
    pub open spec fn text(self) -> Seq<char> {
        match self {
            TlsError::ClientCertStore(m) => "Client CA certificate error: "@ + m@,
            TlsError::ServerCertStore(m) => "Server certificate error: "@ + m@,
            TlsError::ServerCertKey(m) => "Server key error: "@ + m@,
            TlsError::Other(m) => "TLS error: "@ + m@,
        }
    }

    /// Writes the text of the error.
    pub fn message(&self) -> (r: String)
        ensures
            r@ == self.text(),
    {
        match self {
            TlsError::ClientCertStore(m) => concat2("Client CA certificate error: ", m.as_str()),
            TlsError::ServerCertStore(m) => concat2("Server certificate error: ", m.as_str()),
            TlsError::ServerCertKey(m) => concat2("Server key error: ", m.as_str()),
            TlsError::Other(m) => concat2("TLS error: ", m.as_str()),
        }
    }
}

impl ManagementError {
    /// The text of the error.
    pub open spec fn text(self) -> Seq<char> {
        match self {
            ManagementError::NotRunning => "Management API server is not running"@,
            ManagementError::Bind { address, message } => "Management API server cannot bind to "@
                + address.text() + ": "@ + message@,
        }
    }

    /// Writes the text of the error.
    pub fn message(&self) -> (r: String)
        ensures
            r@ == self.text(),
    {
        match self {
            ManagementError::NotRunning => "Management API server is not running".to_owned(),
            ManagementError::Bind { address, message } => {
                let mut r = concat3(
                    "Management API server cannot bind to ",
                    address.to_text().as_str(),
                    ": ",
                );
                r.append(message.as_str());
                r
            },
        }
    }
}

impl ProxyError {
    /// The text of the error.
    pub open spec fn text(self) -> Seq<char> {
        match self {
            ProxyError::AlreadyRunning(addrs) => "Proxy is already running on "@ + addrs.text(),
            ProxyError::Runtime(m) => "Proxy runtime error: "@ + m@,
            ProxyError::Conf(m) => "Proxy configuration error: "@ + m@,
        }
    }

    /// Writes the text of the error.
    pub fn message(&self) -> (r: String)
        ensures
            r@ == self.text(),
    {
        match self {
            ProxyError::AlreadyRunning(addrs) => concat2(
                "Proxy is already running on ",
                addrs.to_text().as_str(),
            ),
            ProxyError::Runtime(m) => concat2("Proxy runtime error: ", m.as_str()),
            ProxyError::Conf(m) => concat2("Proxy configuration error: ", m.as_str()),
        }
    }

    /// The configuration error for a file that could not be read.
    pub fn conf(path: &str, reason: &str) -> (r: ProxyError)
        ensures
            r matches ProxyError::Conf(m) && m@ == "error reading '"@ + path@ + "': "@ + reason@,
    {
        let mut m = concat3("error reading '", path, "': ");
        m.append(reason);
        ProxyError::Conf(m)
    }

    /// A runtime error with the given message.
    pub fn rt(message: &str) -> (r: ProxyError)
        ensures
            r matches ProxyError::Runtime(m) && m@ == message@,
    {
        ProxyError::Runtime(message.to_owned())
    }

    /// The runtime error for a failure of the HTTP server.
    pub fn server(reason: &str) -> (r: ProxyError)
        ensures
            r matches ProxyError::Runtime(m) && m@ == "server error: "@ + reason@,
    {
        ProxyError::Runtime(concat2("server error: ", reason))
    }

    /// The runtime error for a failure of the router.
    pub fn route(reason: &str) -> (r: ProxyError)
        ensures
            r matches ProxyError::Runtime(m) && m@ == "route error: "@ + reason@,
    {
        ProxyError::Runtime(concat2("route error: ", reason))
    }
}

impl ServiceError {
    /// The text of the error.
    pub open spec fn text(self) -> Seq<char> {
        match self {
            ServiceError::AlreadyExists { name, endpoint } => "Service '"@ + name@
                + "' is already bound to '"@ + endpoint@ + "'"@,
            ServiceError::NotFound(name) => "Service '"@ + name@ + "' not found"@,
        }
    }

    /// Writes the text of the error.
    pub fn message(&self) -> (r: String)
        ensures
            r@ == self.text(),
    {
        match self {
            ServiceError::AlreadyExists { name, endpoint } => {
                let mut r = concat3("Service '", name.as_str(), "' is already bound to '");
                r.append(endpoint.as_str());
                r.append("'");
                r
            },
            ServiceError::NotFound(name) => concat3("Service '", name.as_str(), "' not found"),
        }
    }
}

impl UserError {
    /// The text of the error.
    pub open spec fn text(self) -> Seq<char> {
        match self {
            UserError::AlreadyExists(name) => "User already '"@ + name@ + "' exists"@,
            UserError::NotFound(name) => "User '"@ + name@ + "' not found"@,
        }
    }

    /// Writes the text of the error.
    pub fn message(&self) -> (r: String)
        ensures
            r@ == self.text(),
    {
        match self {
            UserError::AlreadyExists(name) => concat3("User already '", name.as_str(), "' exists"),
            UserError::NotFound(name) => concat3("User '", name.as_str(), "' not found"),
        }
    }
}

impl Error {
    /// The text of the error.
    pub open spec fn text(self) -> Seq<char> {
        match self {
            Error::Io(m) => "I/O error: "@ + m@,
            Error::Url(m) => "Invalid URL: "@ + m@,
            Error::Tls(e) => e.text(),
            Error::Management(e) => e.text(),
            Error::Proxy(e) => e.text(),
            Error::Service(e) => e.text(),
            Error::User(e) => e.text(),
            Error::Other(m) => m@,
        }
    }

    /// Writes the text of the error.
    pub fn message(&self) -> (r: String)
        ensures
            r@ == self.text(),
    {
        match self {
            Error::Io(m) => concat2("I/O error: ", m.as_str()),
            Error::Url(m) => concat2("Invalid URL: ", m.as_str()),
            Error::Tls(e) => e.message(),
            Error::Management(e) => e.message(),
            Error::Proxy(e) => e.message(),
            Error::Service(e) => e.message(),
            Error::User(e) => e.message(),
            Error::Other(m) => m.clone(),
        }
    }

    /// An error of no particular kind, with the given message.
    pub fn other(message: &str) -> (r: Error)
        ensures
            r matches Error::Other(m) && m@ == message@,
    {
        Error::Other(message.to_owned())
    }
}

} // verus!
