//! The client side of the management interface: the request that each
//! operation sends, and how an answer is read.

use vstd::prelude::*;
use crate::api::Method;
use crate::text::{concat2, concat3, decimal, str_eq, to_decimal};
use crate::uri::{result_view, text_of, uri_parsed, Uri};

verus! {

/// Default management API url.
pub const DEFAULT_MANAGEMENT_API_URL: &'static str = "http://127.0.0.1:6668";

/// Environment variable to override the default management API url.
pub const ENV_MANAGEMENT_API_URL: &'static str = "MANAGEMENT_API_URL";

/// Body size limit of an answer: 8 MiB.
pub const MAX_BODY_SIZE: usize = 8 * 1024 * 1024;

/// Errors of the client.
#[derive(Clone, Debug, PartialEq, Eq)]
pub enum Error {
    SendRequestError { code: u16, msg: String, method: Method, url: String },
    JsonError(String),
    Utf8Error(String),
    PayloadError(String),
    InvalidUriError(String),
}

/// The name of a method.
pub open spec fn method_text(method: Method) -> Seq<char> {
    match method {
        Method::Get => "GET"@,
        Method::Post => "POST"@,
        Method::Delete => "DELETE"@,
        Method::Other => "OTHER"@,
    }
}

/// Writes the name of a method.
pub fn method_name(method: Method) -> (r: &'static str)
    ensures
        r@ == method_text(method),
{
    match method {
        Method::Get => "GET",
        Method::Post => "POST",
        Method::Delete => "DELETE",
        Method::Other => "OTHER",
    }
}

impl Error {
    /// The text of the error.
    pub open spec fn text(self) -> Seq<char> {
        match self {
            Error::SendRequestError { code, msg, method, url } => "HTTP error requesting "@
                + method_text(method) + " "@ + url@ + ": "@ + decimal(code as nat) + "; msg: '"@
                + msg@ + "'"@,
            Error::JsonError(m) => "JSON error: "@ + m@,
            Error::Utf8Error(m) => "Invalid UTF8 string: "@ + m@,
            Error::PayloadError(m) => "AWC payload error: "@ + m@,
            Error::InvalidUriError(m) => "Invalid URI string: "@ + m@,
        }
    }

    /// Writes the text of the error.
    pub fn message(&self) -> (r: String)
        ensures
            r@ == self.text(),
    {
        match self {
            Error::SendRequestError { code, msg, method, url } => {
                let mut r = concat3("HTTP error requesting ", method_name(*method), " ");
                r.append(url.as_str());
                r.append(": ");
                r.append(to_decimal(*code as u64).as_str());
                r.append("; msg: '");
                r.append(msg.as_str());
                r.append("'");
                r
            },
            Error::JsonError(m) => concat2("JSON error: ", m.as_str()),
            Error::Utf8Error(m) => concat2("Invalid UTF8 string: ", m.as_str()),
            Error::PayloadError(m) => concat2("AWC payload error: ", m.as_str()),
            Error::InvalidUriError(m) => concat2("Invalid URI string: ", m.as_str()),
        }
    }

    /// The error for a request that could not be sent: it counts as a
    /// failure of the server.
    pub fn from_request(reason: &str, method: Method, url: String) -> (r: Error)
        ensures
            r matches Error::SendRequestError { code, msg, method: m, url: u } && code == 500
                && msg@ == reason@ && m == method && u == url,
    {
        Error::SendRequestError { code: 500, msg: reason.to_owned(), method, url }
    }
}

/// The base URL of the management interface: the value of the environment
/// variable where it is set, the default otherwise.
pub fn default_management_api_url(from_env: Option<String>) -> (r: String)
    ensures
        match from_env {
            Some(v) => r == v,
            None => r@ == DEFAULT_MANAGEMENT_API_URL@,
        },
{
    match from_env {
        Some(v) => v,
        None => DEFAULT_MANAGEMENT_API_URL.to_owned(),
    }
}

/// A request of the client: its method and its URL.
#[derive(Clone, Debug, PartialEq, Eq)]
pub struct ApiCall {
    pub method: Method,
    pub url: String,
}

/// The base URL under which the requests of a client are made.
#[derive(Clone, Debug, PartialEq, Eq)]
pub struct WebClient {
    pub url: Uri,
}

impl WebClient {
    /// A client for the management interface at `url`.
    pub fn new(url: &str) -> (r: Result<WebClient, Error>)
        ensures
            match uri_parsed(url@) {
                Ok(u) => r matches Ok(c) && c.url@ == u,
                Err(e) => r matches Err(Error::InvalidUriError(m)) && m@ == e,
            },
    {
        match Uri::parse(url) {
            Ok(url) => Ok(WebClient { url }),
            Err(e) => Err(Error::InvalidUriError(e)),
        }
    }

    /// A client for the management interface at the default URL, or at the
    /// one that the environment gives.
    pub fn try_default(from_env: Option<String>) -> (r: Result<WebClient, Error>)
        ensures
            match uri_parsed(
                match from_env {
                    Some(v) => v@,
                    None => DEFAULT_MANAGEMENT_API_URL@,
                },
            ) {
                Ok(u) => r matches Ok(c) && c.url@ == u,
                Err(e) => r matches Err(Error::InvalidUriError(m)) && m@ == e,
            },
    {
        let url = default_management_api_url(from_env);
        WebClient::new(url.as_str())
    }

    /// The URL of a request: the base URL followed by the path of the request.
    pub open spec fn url_of(self, path: Seq<char>) -> Seq<char> {
        text_of(self.url@) + path
    }

    /// The request with `method` for `path`.
    pub fn request(&self, method: Method, path: &str) -> (r: ApiCall)
        ensures
            r.method == method,
            r.url@ == self.url_of(path@),
    {
        ApiCall { method, url: concat2(self.url.to_text().as_str(), path) }
    }

    /// The `GET` request for `path`.
    pub fn get(&self, path: &str) -> (r: ApiCall)
        ensures
            r.method == Method::Get,
            r.url@ == self.url_of(path@),
    {
        self.request(Method::Get, path)
    }

    /// The `POST` request for `path`.
    pub fn post(&self, path: &str) -> (r: ApiCall)
        ensures
            r.method == Method::Post,
            r.url@ == self.url_of(path@),
    {
        self.request(Method::Post, path)
    }

    /// The `DELETE` request for `path`.
    pub fn delete(&self, path: &str) -> (r: ApiCall)
        ensures
            r.method == Method::Delete,
            r.url@ == self.url_of(path@),
    {
        self.request(Method::Delete, path)
    }
}

/// How the answer to a request is read.
#[derive(Clone, Copy, Debug, PartialEq, Eq, Structural)]
pub enum Reading {
    /// The answer has no content: it stands for the unit value.
    Empty,
    /// The body is the JSON of the value asked for.
    Value,
    /// The body is the JSON of an error.
    Failure,
}

/// How an answer with the given status and `Content-Length` is read: one
/// with status 204 or with a length of zero has no content, whatever its
/// status; otherwise one with a status from 200 to 299 carries the value,
/// and any other an error.
pub open spec fn reading_of(status: u16, content_length: Option<Seq<char>>) -> Reading {
    if status == 204 || content_length == Some("0"@) {
        Reading::Empty
    } else if 200 <= status < 300 {
        Reading::Value
    } else {
        Reading::Failure
    }
}

/// Tells how an answer is read.
pub fn classify(status: u16, content_length: Option<&str>) -> (r: Reading)
    ensures
        r == reading_of(status, crate::uri::opt_str_view(content_length)),
{
    let no_length = match content_length {
        Some(v) => str_eq(v, "0"),
        None => false,
    };
    if status == 204 || no_length {
        Reading::Empty
    } else if 200 <= status && status < 300 {
        Reading::Value
    } else {
        Reading::Failure
    }
}

/// Whether a body of `len` bytes is within the limit for answers.
pub fn body_within_limit(len: usize) -> (r: bool)
    ensures
        r == (len <= MAX_BODY_SIZE),
{
    len <= MAX_BODY_SIZE
}

/// The error for an answer that is a failure: it carries the message of the
/// error body where the body was one, and the text of the status otherwise.
pub fn failure(call: ApiCall, status: u16, message: Option<String>, status_text: &str) -> (r: Error)
    ensures
        r matches Error::SendRequestError { code, msg, method, url } && code == status && method
            == call.method && url == call.url && match message {
            Some(m) => msg == m,
            None => msg@ == status_text@,
        },
{
    let msg = match message {
        Some(m) => m,
        None => status_text.to_owned(),
    };
    Error::SendRequestError { code: status, msg, method: call.method, url: call.url }
}

/// The operations of the management interface, as a client asks for them.
#[derive(Clone, Debug, PartialEq, Eq)]
pub struct ManagementApi {
    pub client: WebClient,
}

impl ManagementApi {
    /// A handle on the management interface at the default URL, or at the
    /// one that the environment gives.
    pub fn try_default(from_env: Option<String>) -> (r: Result<ManagementApi, Error>)
        ensures
            match uri_parsed(
                match from_env {
                    Some(v) => v@,
                    None => DEFAULT_MANAGEMENT_API_URL@,
                },
            ) {
                Ok(u) => r matches Ok(api) && api.client.url@ == u,
                Err(e) => r matches Err(Error::InvalidUriError(m)) && m@ == e,
            },
    {
        match WebClient::try_default(from_env) {
            Ok(client) => Ok(ManagementApi { client }),
            Err(e) => Err(e),
        }
    }

    /// A handle on the management interface at `url`.
    pub fn try_from_url(url: &str) -> (r: Result<ManagementApi, Error>)
        ensures
            match uri_parsed(url@) {
                Ok(u) => r matches Ok(api) && api.client.url@ == u,
                Err(e) => r matches Err(Error::InvalidUriError(m)) && m@ == e,
            },
    {
        match WebClient::new(url) {
            Ok(client) => Ok(ManagementApi { client }),
            Err(e) => Err(e),
        }
    }

    /// Lists the services.
    pub fn get_services(&self) -> (r: ApiCall)
        ensures
            r.method == Method::Get,
            r.url@ == self.client.url_of("services"@),
    {
        self.client.get("services")
    }

    /// Creates a service.
    pub fn create_service(&self) -> (r: ApiCall)
        ensures
            r.method == Method::Post,
            r.url@ == self.client.url_of("services"@),
    {
        self.client.post("services")
    }

    /// Gets a service by name.
    pub fn get_service(&self, service_name: &str) -> (r: ApiCall)
        ensures
            r.method == Method::Get,
            r.url@ == self.client.url_of("services/"@ + service_name@),
    {
        self.client.get(concat2("services/", service_name).as_str())
    }

    /// Drops a service.
    pub fn delete_service(&self, service_name: &str) -> (r: ApiCall)
        ensures
            r.method == Method::Delete,
            r.url@ == self.client.url_of("services/"@ + service_name@),
    {
        self.client.delete(concat2("services/", service_name).as_str())
    }

    /// Lists the users of a service.
    pub fn get_users(&self, service_name: &str) -> (r: ApiCall)
        ensures
            r.method == Method::Get,
            r.url@ == self.client.url_of("services/"@ + service_name@ + "/users"@),
    {
        self.client.get(concat3("services/", service_name, "/users").as_str())
    }

    /// Adds a user to a service.
    pub fn create_user(&self, service_name: &str) -> (r: ApiCall)
        ensures
            r.method == Method::Post,
            r.url@ == self.client.url_of("services/"@ + service_name@ + "/users"@),
    {
        self.client.post(concat3("services/", service_name, "/users").as_str())
    }

    /// The path of a user of a service.
    pub open spec fn user_path(service_name: Seq<char>, username: Seq<char>) -> Seq<char> {
        "services/"@ + service_name + "/users/"@ + username
    }

    /// Writes the path of a user of a service.
    pub fn path_of_user(service_name: &str, username: &str) -> (r: String)
        ensures
            r@ == ManagementApi::user_path(service_name@, username@),
    {
        let mut r = concat3("services/", service_name, "/users/");
        r.append(username);
        r
    }

    /// Gets a user of a service.
    pub fn get_user(&self, service_name: &str, username: &str) -> (r: ApiCall)
        ensures
            r.method == Method::Get,
            r.url@ == self.client.url_of(ManagementApi::user_path(service_name@, username@)),
    {
        self.client.get(ManagementApi::path_of_user(service_name, username).as_str())
    }

    /// Removes a user from a service.
    pub fn delete_user(&self, service_name: &str, username: &str) -> (r: ApiCall)
        ensures
            r.method == Method::Delete,
            r.url@ == self.client.url_of(ManagementApi::user_path(service_name@, username@)),
    {
        self.client.delete(ManagementApi::path_of_user(service_name, username).as_str())
    }

    /// Asks for the statistics of a user.
    pub fn get_user_stats(&self, service_name: &str, username: &str) -> (r: ApiCall)
        ensures
            r.method == Method::Get,
            r.url@ == self.client.url_of(
                ManagementApi::user_path(service_name@, username@) + "/stats"@,
            ),
    {
        let mut path = ManagementApi::path_of_user(service_name, username);
        path.append("/stats");
        self.client.get(path.as_str())
    }

    /// Asks for the statistics of a user by endpoint.
    pub fn get_endpoint_user_stats(&self, service_name: &str, username: &str) -> (r: ApiCall)
        ensures
            r.method == Method::Get,
            r.url@ == self.client.url_of(
                ManagementApi::user_path(service_name@, username@) + "/endpoints/stats"@,
            ),
    {
        let mut path = ManagementApi::path_of_user(service_name, username);
        path.append("/endpoints/stats");
        self.client.get(path.as_str())
    }

    /// Asks for the global statistics.
    pub fn get_global_stats(&self) -> (r: ApiCall)
        ensures
            r.method == Method::Get,
            r.url@ == self.client.url_of("stats"@),
    {
        self.client.get("stats")
    }
}

} // verus!
