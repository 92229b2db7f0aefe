//! The management interface: its routes, its operations on the manager, and
//! the mapping of errors to HTTP statuses.

use vstd::prelude::*;
use vstd::utf8::encode_utf8;
use crate::codec::codec_limit;
use crate::error::{Error, ProxyError, ServiceError, UserError};
use crate::manager::{ProxyManager, Spawn};
use crate::model::{CreateService, CreateUser, ErrorResponse, Service, Timestamp, User, UserEndpointStats, UserStats};
use crate::proxy::Proxy;
use crate::service::{ProxyService, ProxyUser};
use crate::strmap::StringMap;
use crate::text::{concat2, str_eq};

verus! {

/// The largest request body that the management interface reads: 8 MiB.
pub const MAX_BODY_SIZE: usize = 8 * 1024 * 1024;

/// Status of an answer that carries content.
pub const OK: u16 = 200;

/// Status of an answer without content.
pub const NO_CONTENT: u16 = 204;

/// Status of a request that cannot be served as it is.
pub const BAD_REQUEST: u16 = 400;

/// Status of a request for a route that does not exist.
pub const NOT_FOUND: u16 = 404;

/// Status of a request that clashes with what is there.
pub const CONFLICT: u16 = 409;

/// Status of a failure of the server itself.
pub const INTERNAL_SERVER_ERROR: u16 = 500;

/// An error as the management interface answers it.
#[derive(Clone, Debug, PartialEq, Eq)]
pub enum ApiErrorKind {
    BadRequest(Error),
    Conflict(Error),
    InternalServerError(String),
}

/// The classes of errors, by the status they are answered with.
pub enum ErrorClass {
    BadRequest,
    Conflict,
    Internal,
}

/// The class of an error: what already exists is a conflict; what the
/// caller got wrong — a value that cannot be parsed, a configuration that
/// does not hold, a service or user that is not there — is a bad request;
/// anything else is a failure of the server.
pub open spec fn class_of(e: Error) -> ErrorClass {
    match e {
        Error::Proxy(ProxyError::AlreadyRunning(_)) => ErrorClass::Conflict,
        Error::Service(ServiceError::AlreadyExists { .. }) => ErrorClass::Conflict,
        Error::User(UserError::AlreadyExists(_)) => ErrorClass::Conflict,
        Error::Url(_) => ErrorClass::BadRequest,
        Error::Other(_) => ErrorClass::BadRequest,
        Error::Proxy(ProxyError::Conf(_)) => ErrorClass::BadRequest,
        Error::Service(ServiceError::NotFound(_)) => ErrorClass::BadRequest,
        Error::User(UserError::NotFound(_)) => ErrorClass::BadRequest,
        Error::Io(_) => ErrorClass::Internal,
        Error::Tls(_) => ErrorClass::Internal,
        Error::Management(_) => ErrorClass::Internal,
        Error::Proxy(ProxyError::Runtime(_)) => ErrorClass::Internal,
    }
}

/// Whether `kind` is the answer to the error `e`.
pub open spec fn answers(kind: ApiErrorKind, e: Error) -> bool {
    match class_of(e) {
        ErrorClass::BadRequest => kind == ApiErrorKind::BadRequest(e),
        ErrorClass::Conflict => kind == ApiErrorKind::Conflict(e),
        ErrorClass::Internal => kind matches ApiErrorKind::InternalServerError(m) && m@ == e.text(),
    }
}

impl ApiErrorKind {
    /// The status that the error is answered with.
    pub open spec fn status_of(self) -> u16 {
        match self {
            ApiErrorKind::BadRequest(_) => BAD_REQUEST,
            ApiErrorKind::Conflict(_) => CONFLICT,
            ApiErrorKind::InternalServerError(_) => INTERNAL_SERVER_ERROR,
        }
    }

    /// The message in the body of the answer: the text of the error itself.
    pub open spec fn body_text(self) -> Seq<char> {
        match self {
            ApiErrorKind::BadRequest(e) => e.text(),
            ApiErrorKind::Conflict(e) => e.text(),
            ApiErrorKind::InternalServerError(m) => m@,
        }
    }

    /// The text of the error, with its class.
    pub open spec fn text(self) -> Seq<char> {
        match self {
            ApiErrorKind::BadRequest(e) => "Bad request: "@ + e.text(),
            ApiErrorKind::Conflict(e) => "Conflict: "@ + e.text(),
            ApiErrorKind::InternalServerError(m) => "Internal server error "@ + m@,
        }
    }

    /// The answer to an error of the proxy.
    pub fn from(e: Error) -> (r: ApiErrorKind)
        ensures
            answers(r, e),
    {
        match e {
            Error::Proxy(ProxyError::AlreadyRunning(_)) => ApiErrorKind::Conflict(e),
            Error::Service(ServiceError::AlreadyExists { .. }) => ApiErrorKind::Conflict(e),
            Error::User(UserError::AlreadyExists(_)) => ApiErrorKind::Conflict(e),
            Error::Url(_) => ApiErrorKind::BadRequest(e),
            Error::Other(_) => ApiErrorKind::BadRequest(e),
            Error::Proxy(ProxyError::Conf(_)) => ApiErrorKind::BadRequest(e),
            Error::Service(ServiceError::NotFound(_)) => ApiErrorKind::BadRequest(e),
            Error::User(UserError::NotFound(_)) => ApiErrorKind::BadRequest(e),
            Error::Io(_) => ApiErrorKind::InternalServerError(e.message()),
            Error::Tls(_) => ApiErrorKind::InternalServerError(e.message()),
            Error::Management(_) => ApiErrorKind::InternalServerError(e.message()),
            Error::Proxy(ProxyError::Runtime(_)) => ApiErrorKind::InternalServerError(e.message()),
        }
    }

    /// The answer to a body that is not the JSON expected.
    pub fn from_json(reason: &str) -> (r: ApiErrorKind)
        ensures
            r matches ApiErrorKind::BadRequest(Error::Other(m)) && m@ == reason@,
    {
        ApiErrorKind::BadRequest(Error::other(reason))
    }

    /// The answer to a failure of the HTTP layer.
    pub fn internal(reason: &str) -> (r: ApiErrorKind)
        ensures
            r matches ApiErrorKind::InternalServerError(m) && m@ == reason@,
    {
        ApiErrorKind::InternalServerError(reason.to_owned())
    }

    /// The status that the error is answered with.
    pub fn status(&self) -> (r: u16)
        ensures
            r == self.status_of(),
    {
        match self {
            ApiErrorKind::BadRequest(_) => BAD_REQUEST,
            ApiErrorKind::Conflict(_) => CONFLICT,
            ApiErrorKind::InternalServerError(_) => INTERNAL_SERVER_ERROR,
        }
    }

    /// Writes the text of the error, with its class.
    pub fn message(&self) -> (r: String)
        ensures
            r@ == self.text(),
    {
        match self {
            ApiErrorKind::BadRequest(e) => concat2("Bad request: ", e.message().as_str()),
            ApiErrorKind::Conflict(e) => concat2("Conflict: ", e.message().as_str()),
            ApiErrorKind::InternalServerError(m) => concat2("Internal server error ", m.as_str()),
        }
    }
}

/// The status and the body of the answer to an error.
pub fn err_response(err: &ApiErrorKind) -> (r: (u16, ErrorResponse))
    ensures
        r.0 == err.status_of(),
        r.1.message@ == err.body_text(),
{
    let message = match err {
        ApiErrorKind::BadRequest(e) => e.message(),
        ApiErrorKind::Conflict(e) => e.message(),
        ApiErrorKind::InternalServerError(m) => m.clone(),
    };
    (err.status(), ErrorResponse { message })
}

/// The status and the body of the answer to a request for a route that does
/// not exist.
pub fn not_found_response() -> (r: (u16, ErrorResponse))
    ensures
        r.0 == NOT_FOUND,
        r.1.message@ == "Not Found"@,
{
    (NOT_FOUND, ErrorResponse { message: "Not Found".to_owned() })
}

/// The status of a successful answer: 204 where there is nothing to say,
/// 200 otherwise.
pub fn success_status(empty: bool) -> (r: u16)
    ensures
        r == if empty {
            NO_CONTENT
        } else {
            OK
        },
{
    if empty {
        NO_CONTENT
    } else {
        OK
    }
}

/// Refuses a request body of more than [`MAX_BODY_SIZE`] bytes.
pub fn check_body_size(len: usize) -> (r: Result<(), ApiErrorKind>)
    ensures
        len <= MAX_BODY_SIZE ==> r is Ok,
        len > MAX_BODY_SIZE ==> (r matches Err(ApiErrorKind::BadRequest(Error::Other(m))) && m@
            == "request body too large"@),
{
    if len > MAX_BODY_SIZE {
        Err(ApiErrorKind::BadRequest(Error::other("request body too large")))
    } else {
        Ok(())
    }
}

/// The request methods that the routes tell apart.
#[derive(Clone, Copy, Debug, PartialEq, Eq, Structural)]
pub enum Method {
    Get,
    Post,
    Delete,
    Other,
}

/// The routes of the management interface.
#[derive(Clone, Debug, PartialEq, Eq)]
pub enum Route {
    /// `GET /services`
    GetServices,
    /// `POST /services`
    PostServices,
    /// `GET /services/{name}`
    GetService(String),
    /// `DELETE /services/{name}`
    DeleteService(String),
    /// `GET /services/{name}/users`
    GetUsers(String),
    /// `POST /services/{name}/users`
    PostUsers(String),
    /// `GET /services/{name}/users/{user}`
    GetUser(String, String),
    /// `DELETE /services/{name}/users/{user}`
    DeleteUser(String, String),
    /// `GET /services/{name}/users/{user}/stats`
    GetUserStats(String, String),
    /// `GET /services/{name}/users/{user}/endpoints/stats`
    GetUserEndpointStats(String, String),
    /// Anything else.
    NotFound,
}

/// The mathematical value of a [`Route`].
pub enum RouteView {
    GetServices,
    PostServices,
    GetService(Seq<char>),
    DeleteService(Seq<char>),
    GetUsers(Seq<char>),
    PostUsers(Seq<char>),
    GetUser(Seq<char>, Seq<char>),
    DeleteUser(Seq<char>, Seq<char>),
    GetUserStats(Seq<char>, Seq<char>),
    GetUserEndpointStats(Seq<char>, Seq<char>),
    NotFound,
}

impl View for Route {
    type V = RouteView;

    open spec fn view(&self) -> RouteView {
        match self {
            Route::GetServices => RouteView::GetServices,
            Route::PostServices => RouteView::PostServices,
            Route::GetService(n) => RouteView::GetService(n@),
            Route::DeleteService(n) => RouteView::DeleteService(n@),
            Route::GetUsers(n) => RouteView::GetUsers(n@),
            Route::PostUsers(n) => RouteView::PostUsers(n@),
            Route::GetUser(n, u) => RouteView::GetUser(n@, u@),
            Route::DeleteUser(n, u) => RouteView::DeleteUser(n@, u@),
            Route::GetUserStats(n, u) => RouteView::GetUserStats(n@, u@),
            Route::GetUserEndpointStats(n, u) => RouteView::GetUserEndpointStats(n@, u@),
            Route::NotFound => RouteView::NotFound,
        }
    }
}

/// The parts of `s` between the occurrences of `c`.
pub open spec fn split(s: Seq<char>, c: char) -> Seq<Seq<char>>
    decreases s.len(),
{
    if s.len() == 0 {
        seq![Seq::empty()]
    } else if s.last() == c {
        split(s.drop_last(), c).push(Seq::empty())
    } else {
        let parts = split(s.drop_last(), c);
        parts.drop_last().push(parts.last().push(s.last()))
    }
}

/// The strings of `v` as sequences of characters.
pub open spec fn texts(v: Seq<String>) -> Seq<Seq<char>> {
    Seq::new(v.len(), |i: int| v[i]@)
}

/// Splits `s` at each occurrence of `c`.
pub fn split_at_char(s: &str, c: char) -> (parts: Vec<String>)
    ensures
        texts(parts@) == split(s@, c),
{
    let chars = crate::text::chars_of(s);
    let n = chars.len();
    let mut parts: Vec<String> = Vec::new();
    let mut start: usize = 0;
    let mut i: usize = 0;
    proof {
        assert(s@.take(0) =~= Seq::<char>::empty());
        assert(s@.subrange(0, 0) =~= Seq::<char>::empty());
        assert(texts(parts@).push(s@.subrange(0, 0)) =~= seq![Seq::<char>::empty()]);
    }
    while i < n
        invariant
            start <= i <= n,
            n == chars@.len(),
            chars@ == s@,
            split(s@.take(i as int), c) == texts(parts@).push(s@.subrange(start as int, i as int)),
        decreases n - i,
    {
        let ghost before = texts(parts@);
        let ghost prefix = s@.take(i as int);
        let ghost next = s@.take(i + 1);
        proof {
            assert(next.drop_last() =~= prefix);
            assert(next.last() == s@[i as int]);
        }
        if chars[i] == c {
            parts.push(s.substring_char(start, i).to_owned());
            proof {
                assert(texts(parts@) =~= before.push(s@.subrange(start as int, i as int)));
                assert(s@.subrange(i + 1, i + 1) =~= Seq::<char>::empty());
            }
            start = i + 1;
        } else {
            proof {
                let p = split(prefix, c);
                assert(p.drop_last() =~= before);
                assert(p.last().push(s@[i as int]) =~= s@.subrange(start as int, i + 1));
            }
        }
        i += 1;
    }
    proof {
        assert(s@.take(n as int) =~= s@);
    }
    let ghost before = texts(parts@);
    parts.push(s.substring_char(start, n).to_owned());
    proof {
        assert(texts(parts@) =~= before.push(s@.subrange(start as int, n as int)));
    }
    parts
}

/// The value of a hexadecimal digit given as an ASCII byte, in either case
/// of the letters.
pub open spec fn hex_value(b: u8) -> Option<u8> {
    if 0x30 <= b <= 0x39 {
        Some((b - 0x30) as u8)
    } else if 0x61 <= b <= 0x66 {
        Some((b - 0x61 + 10) as u8)
    } else if 0x41 <= b <= 0x46 {
        Some((b - 0x41 + 10) as u8)
    } else {
        None
    }
}

/// The bytes that percent-decoding makes of `s`: each `%` that two
/// hexadecimal digits follow stands, with them, for the byte that they
/// write; every other byte stands for itself.
pub open spec fn percent_decoded_bytes(s: Seq<u8>) -> Seq<u8>
    decreases s.len(),
{
    if s.len() == 0 {
        s
    } else if s[0] == 0x25 && s.len() >= 3 && hex_value(s[1]) is Some && hex_value(s[2]) is Some {
        seq![(hex_value(s[1])->0 * 16 + hex_value(s[2])->0) as u8] + percent_decoded_bytes(
            s.skip(3),
        )
    } else {
        seq![s[0]] + percent_decoded_bytes(s.drop_first())
    }
}

/// The text that percent-decoding makes of a path: its bytes decoded and
/// read as UTF-8, none where the decoded bytes are not UTF-8.
pub open spec fn percent_decoded(path: Seq<char>) -> Option<Seq<char>> {
    let bytes = percent_decoded_bytes(vstd::utf8::encode_utf8(path));
    if vstd::utf8::valid_utf8(bytes) {
        Some(vstd::utf8::decode_utf8(bytes))
    } else {
        None
    }
}

/// Calls `percent_encoding::percent_decode_str` and `decode_utf8` on the
/// path: the result is the text that [`percent_decoded`] states, which is
/// what the decoder's source does byte by byte.
#[verifier::external_body]
fn percent_decode(path: &str) -> (r: Option<String>)
    ensures
        crate::uri::opt_view(r) == percent_decoded(path@),
{
    match percent_encoding::percent_decode_str(path).decode_utf8() {
        Ok(decoded) => Some(decoded.into_owned()),
        Err(_) => None,
    }
}

/// The path that the routes are matched against: the given path, with a `/`
/// at its end where it has none.
pub open spec fn target_of(path: Seq<char>) -> Seq<char> {
    if path.len() == 0 || path.last() != '/' {
        path.push('/')
    } else {
        path
    }
}

/// The route for a method and a path whose percent-encoding was decoded.
///
/// The path is a sequence of segments, each after a `/`; a `/` at its end
/// makes no difference. The segments in braces stand for any text that is
/// not empty.
pub open spec fn route_of(method: Method, path: Seq<char>) -> RouteView {
    let parts = split(target_of(path), '/');
    let n = parts.len();
    if n < 3 || parts[0].len() != 0 || parts[n - 1].len() != 0 || parts[1] != "services"@ {
        RouteView::NotFound
    } else if n == 3 {
        match method {
            Method::Get => RouteView::GetServices,
            Method::Post => RouteView::PostServices,
            _ => RouteView::NotFound,
        }
    } else if parts[2].len() == 0 {
        RouteView::NotFound
    } else if n == 4 {
        match method {
            Method::Get => RouteView::GetService(parts[2]),
            Method::Delete => RouteView::DeleteService(parts[2]),
            _ => RouteView::NotFound,
        }
    } else if parts[3] != "users"@ {
        RouteView::NotFound
    } else if n == 5 {
        match method {
            Method::Get => RouteView::GetUsers(parts[2]),
            Method::Post => RouteView::PostUsers(parts[2]),
            _ => RouteView::NotFound,
        }
    } else if parts[4].len() == 0 {
        RouteView::NotFound
    } else if n == 6 {
        match method {
            Method::Get => RouteView::GetUser(parts[2], parts[4]),
            Method::Delete => RouteView::DeleteUser(parts[2], parts[4]),
            _ => RouteView::NotFound,
        }
    } else if n == 7 && parts[5] == "stats"@ && method == Method::Get {
        RouteView::GetUserStats(parts[2], parts[4])
    } else if n == 8 && parts[5] == "endpoints"@ && parts[6] == "stats"@ && method == Method::Get {
        RouteView::GetUserEndpointStats(parts[2], parts[4])
    } else {
        RouteView::NotFound
    }
}

/// Finds the route for a method and a decoded path.
pub fn route_decoded(method: Method, path: &str) -> (r: Route)
    ensures
        r@ == route_of(method, path@),
{
    proof {
        reveal_strlit("/");
        assert("/"@ =~= seq!['/']);
        assert(path@ + seq!['/'] =~= path@.push('/'));
    }
    let target = if path.unicode_len() == 0 || !crate::text::ends_with_char(path, '/') {
        concat2(path, "/")
    } else {
        path.to_owned()
    };
    let parts = split_at_char(target.as_str(), '/');
    let n = parts.len();
    assert(forall|i: int| 0 <= i < n ==> texts(parts@)[i] == parts@[i]@);
    if n < 3 || parts[0].as_str().unicode_len() != 0 || parts[n - 1].as_str().unicode_len() != 0
        || !str_eq(parts[1].as_str(), "services") {
        Route::NotFound
    } else if n == 3 {
        match method {
            Method::Get => Route::GetServices,
            Method::Post => Route::PostServices,
            _ => Route::NotFound,
        }
    } else if parts[2].as_str().unicode_len() == 0 {
        Route::NotFound
    } else if n == 4 {
        match method {
            Method::Get => Route::GetService(parts[2].clone()),
            Method::Delete => Route::DeleteService(parts[2].clone()),
            _ => Route::NotFound,
        }
    } else if !str_eq(parts[3].as_str(), "users") {
        Route::NotFound
    } else if n == 5 {
        match method {
            Method::Get => Route::GetUsers(parts[2].clone()),
            Method::Post => Route::PostUsers(parts[2].clone()),
            _ => Route::NotFound,
        }
    } else if parts[4].as_str().unicode_len() == 0 {
        Route::NotFound
    } else if n == 6 {
        match method {
            Method::Get => Route::GetUser(parts[2].clone(), parts[4].clone()),
            Method::Delete => Route::DeleteUser(parts[2].clone(), parts[4].clone()),
            _ => Route::NotFound,
        }
    } else if n == 7 && str_eq(parts[5].as_str(), "stats") && method == Method::Get {
        Route::GetUserStats(parts[2].clone(), parts[4].clone())
    } else if n == 8 && str_eq(parts[5].as_str(), "endpoints") && str_eq(
        parts[6].as_str(),
        "stats",
    ) && method == Method::Get {
        Route::GetUserEndpointStats(parts[2].clone(), parts[4].clone())
    } else {
        Route::NotFound
    }
}

/// Finds the route for a method and the path of a request URI. A path whose
/// percent-encoding does not decode to text is an error of the server.
pub fn route(method: Method, path: &str) -> (r: Result<Route, ApiErrorKind>)
    ensures
        match percent_decoded(path@) {
            Some(decoded) => r matches Ok(found) && found@ == route_of(method, decoded),
            None => r matches Err(ApiErrorKind::InternalServerError(m)) && m@
                == "Couldn't decode the request path as UTF8"@,
        },
{
    match percent_decode(path) {
        Some(decoded) => Ok(route_decoded(method, decoded.as_str())),
        None => Err(ApiErrorKind::internal("Couldn't decode the request path as UTF8")),
    }
}

/// Whether `s` describes the running service `ps`.
pub open spec fn describes(s: Service, ps: ProxyService) -> bool {
    s.created_at == ps.created() && ps.descriptor().same(s.inner)
}

/// The places of all services of all instances: for each, the position of
/// its instance and its endpoint, instance after instance.
pub open spec fn places(instances: Seq<Proxy>) -> Seq<(int, Seq<char>)>
    decreases instances.len(),
{
    if instances.len() == 0 {
        Seq::empty()
    } else {
        let last = instances.len() - 1;
        places(instances.drop_last()) + Seq::new(
            instances[last].state.endpoints().len(),
            |j: int| (last, instances[last].state.endpoints()[j]),
        )
    }
}

/// Lists the services of all instances.
pub fn get_services(manager: &ProxyManager) -> (r: Vec<Service>)
    requires
        manager.wf(),
    ensures
        r@.len() == places(manager.instances()).len(),
        forall|k: int|
            0 <= k < r@.len() ==> {
                let (i, e) = #[trigger] places(manager.instances())[k];
                &&& 0 <= i < manager.instances().len()
                &&& manager.instances()[i].state.services().contains_key(e)
                &&& describes(r@[k], manager.instances()[i].state.services()[e])
            },
{
    let mut r: Vec<Service> = Vec::new();
    let n = manager.len();
    let mut i: usize = 0;
    proof {
        assert(manager.instances().take(0) =~= Seq::<Proxy>::empty());
    }
    while i < n
        invariant
            i <= n,
            n == manager.instances().len(),
            manager.wf(),
            r@.len() == places(manager.instances().take(i as int)).len(),
            forall|k: int|
                0 <= k < r@.len() ==> {
                    let (p, e) = #[trigger] places(manager.instances().take(i as int))[k];
                    &&& 0 <= p < i
                    &&& manager.instances()[p].state.services().contains_key(e)
                    &&& describes(r@[k], manager.instances()[p].state.services()[e])
                },
        decreases n - i,
    {
        let proxy = manager.proxy_at(i);
        let mut list = proxy.state.list();
        let ghost before = r@;
        let ghost listed = list@;
        r.append(&mut list);
        proof {
            let prev = manager.instances().take(i as int);
            let next = manager.instances().take(i + 1);
            assert(next.drop_last() =~= prev);
            assert(next[i as int] == manager.instances()[i as int]);
            assert(r@ =~= before + listed);
            assert forall|k: int| 0 <= k < r@.len() implies {
                let (p, e) = #[trigger] places(next)[k];
                &&& 0 <= p < i + 1
                &&& manager.instances()[p].state.services().contains_key(e)
                &&& describes(r@[k], manager.instances()[p].state.services()[e])
            } by {
                if k < before.len() {
                    assert(places(next)[k] == places(prev)[k]);
                } else {
                    let j = k - before.len();
                    assert(r@[k] == listed[j]);
                    assert(places(next)[k] == (i as int, proxy.state.endpoints()[j]));
                }
            }
        }
        i += 1;
    }
    proof {
        assert(manager.instances().take(n as int) =~= manager.instances());
    }
    r
}

/// Whether `r` is the answer to an operation whose outcome on the proxy was
/// `outcome`: the value where there is one, else the error as the interface
/// answers it.
pub open spec fn answered<T>(r: Result<T, ApiErrorKind>, outcome: Result<T, Error>) -> bool {
    match outcome {
        Ok(v) => r == Ok::<T, ApiErrorKind>(v),
        Err(e) => r matches Err(kind) && answers(kind, e),
    }
}

/// Turns the outcome of an operation into the answer of the interface.
pub fn answer<T>(outcome: Result<T, Error>) -> (r: Result<T, ApiErrorKind>)
    ensures
        answered(r, outcome),
{
    match outcome {
        Ok(v) => Ok(v),
        Err(e) => Err(ApiErrorKind::from(e)),
    }
}

/// Whether `kind` says that no service is called `service_name`.
pub open spec fn no_such_service(kind: ApiErrorKind, service_name: Seq<char>) -> bool {
    kind matches ApiErrorKind::BadRequest(Error::Service(ServiceError::NotFound(n))) && n@
        == service_name
}

/// Whether `kind` says that no user is called `username`.
pub open spec fn no_such_user(kind: ApiErrorKind, username: Seq<char>) -> bool {
    kind matches ApiErrorKind::BadRequest(Error::User(UserError::NotFound(n))) && n@ == username
}

/// Finds the instance for a new service, or prepares a new one.
pub fn post_services_begin(manager: &ProxyManager, create: &mut CreateService, file: &Result<Vec<u8>, String>) -> (r:
    Result<Spawn, ApiErrorKind>)
    requires
        manager.wf(),
    ensures
        exists|outcome: Result<Spawn, Error>|
            manager.decided(*old(create), *file, *final(create), outcome) && answered(r, outcome),
{
    let outcome = manager.get_or_spawn(create, file);
    let ghost witness = outcome;
    let r = answer(outcome);
    assert(manager.decided(*old(create), *file, *create, witness) && answered(r, witness));
    r
}

/// Adds the service, created at `now`, to the instance at position `i`:
/// the one that [`post_services_begin`] found, or the one that was started
/// and inserted since.
pub fn post_services_finish(manager: &mut ProxyManager, i: usize, create: CreateService, now: Timestamp) -> (r:
    Result<Service, ApiErrorKind>)
    requires
        old(manager).wf(),
        i < old(manager).instances().len(),
    ensures
        final(manager).wf(),
        ProxyManager::changed_at(*old(manager), *final(manager), i as int),
        exists|outcome: Result<Service, Error>|
            Proxy::added(
                old(manager).instances()[i as int],
                final(manager).instances()[i as int],
                create,
                now,
                outcome,
            ) && answered(r, outcome),
{
    let outcome = manager.add_service_at(i, create, now);
    let ghost witness = outcome;
    let r = answer(outcome);
    assert(Proxy::added(
        old(manager).instances()[i as int],
        manager.instances()[i as int],
        create,
        now,
        witness,
    ) && answered(r, witness));
    r
}

/// Retrieves a single service.
pub fn get_service(manager: &ProxyManager, service_name: &str) -> (r: Result<Service, ApiErrorKind>)
    requires
        manager.wf(),
    ensures
        match manager.owner(service_name@) {
            Some(i) => {
                let state = manager.instances()[i].state;
                r matches Ok(s) && describes(s, state.services()[state.names()[service_name@]])
            },
            None => r matches Err(kind) && no_such_service(kind, service_name@),
        },
{
    let i = match manager.proxy(service_name) {
        Ok(i) => i,
        Err(e) => {
            return Err(ApiErrorKind::from(e));
        },
    };
    answer(manager.proxy_at(i).get(service_name))
}

/// Removes a service.
pub fn delete_service(manager: &mut ProxyManager, service_name: &str) -> (r: Result<(), ApiErrorKind>)
    requires
        old(manager).wf(),
    ensures
        final(manager).wf(),
        match old(manager).owner(service_name@) {
            Some(i) => {
                &&& r is Ok
                &&& ProxyManager::changed_at(*old(manager), *final(manager), i)
                &&& Proxy::removed(
                    old(manager).instances()[i],
                    final(manager).instances()[i],
                    service_name@,
                    Ok(()),
                )
            },
            None => (r matches Err(kind) && no_such_service(kind, service_name@)) && *final(manager)
                == *old(manager),
        },
{
    let i = match manager.proxy(service_name) {
        Ok(i) => i,
        Err(e) => {
            return Err(ApiErrorKind::from(e));
        },
    };
    answer(manager.remove_service(i, service_name))
}

/// The public descriptor of a user.
pub fn user_of(u: ProxyUser) -> (r: User)
    ensures
        r.username == u.username,
        r.created_at == u.created_at,
{
    User { username: u.username, created_at: u.created_at }
}

/// Lists the users of a service, in the order in which they were added.
pub fn get_users(manager: &ProxyManager, service_name: &str) -> (r: Result<Vec<User>, ApiErrorKind>)
    requires
        manager.wf(),
    ensures
        match manager.owner(service_name@) {
            Some(i) => {
                let state = manager.instances()[i].state;
                let s = state.services()[state.names()[service_name@]];
                &&& r matches Ok(users)
                &&& users@.len() == s.user_names().len()
                &&& forall|k: int|
                    0 <= k < users@.len() ==> s.users().contains_key(#[trigger] s.user_names()[k])
                        && users@[k].username == s.users()[s.user_names()[k]].username
                        && users@[k].created_at == s.users()[s.user_names()[k]].created_at
            },
            None => r matches Err(kind) && no_such_service(kind, service_name@),
        },
{
    let i = match manager.proxy(service_name) {
        Ok(i) => i,
        Err(e) => {
            return Err(ApiErrorKind::from(e));
        },
    };
    let mut found = match manager.proxy_at(i).get_users(service_name) {
        Ok(found) => found,
        Err(e) => {
            return Err(ApiErrorKind::from(e));
        },
    };
    let ghost all = found@;
    let mut users: Vec<User> = Vec::new();
    let n = found.len();
    let mut k: usize = 0;
    while k < n
        invariant
            k <= n,
            n == found@.len(),
            found@ == all,
            users@.len() == k,
            forall|j: int|
                0 <= j < k ==> users@[j].username == (#[trigger] all[j]).username
                    && users@[j].created_at == all[j].created_at,
        decreases n - k,
    {
        users.push(user_of(found[k].duplicate()));
        k += 1;
    }
    Ok(users)
}

/// Whether `r` is the answer to the creation of a user whose outcome on the
/// proxy was `outcome`: the public descriptor of the user, or the error as
/// the interface answers it.
pub open spec fn user_answered(r: Result<User, ApiErrorKind>, outcome: Result<ProxyUser, Error>) -> bool {
    match outcome {
        Ok(u) => r matches Ok(user) && user.username == u.username && user.created_at
            == u.created_at,
        Err(e) => r matches Err(kind) && answers(kind, e),
    }
}

/// Creates a user of a service, at `now`.
pub fn post_users(manager: &mut ProxyManager, service_name: &str, create: &CreateUser, now: Timestamp) -> (r:
    Result<User, ApiErrorKind>)
    requires
        old(manager).wf(),
        encode_utf8(create.username@ + seq![':'] + create.password@).len() <= codec_limit(),
    ensures
        final(manager).wf(),
        match old(manager).owner(service_name@) {
            Some(i) => {
                &&& ProxyManager::changed_at(*old(manager), *final(manager), i)
                &&& exists|outcome: Result<ProxyUser, Error>|
                    Proxy::user_added(
                        old(manager).instances()[i],
                        final(manager).instances()[i],
                        service_name@,
                        create.username@,
                        create.password@,
                        now,
                        outcome,
                    ) && user_answered(r, outcome)
            },
            None => (r matches Err(kind) && no_such_service(kind, service_name@)) && *final(manager)
                == *old(manager),
        },
{
    let i = match manager.proxy(service_name) {
        Ok(i) => i,
        Err(e) => {
            return Err(ApiErrorKind::from(e));
        },
    };
    let outcome = manager.add_user_at(
        i,
        service_name,
        create.username.as_str(),
        create.password.as_str(),
        now,
    );
    let ghost witness = outcome;
    let r = match outcome {
        Ok(u) => Ok(user_of(u)),
        Err(e) => Err(ApiErrorKind::from(e)),
    };
    assert(Proxy::user_added(
        old(manager).instances()[i as int],
        manager.instances()[i as int],
        service_name@,
        create.username@,
        create.password@,
        now,
        witness,
    ) && user_answered(r, witness));
    r
}

/// Retrieves a single user of a service.
pub fn get_user(manager: &ProxyManager, service_name: &str, username: &str) -> (r: Result<
    User,
    ApiErrorKind,
>)
    requires
        manager.wf(),
    ensures
        match manager.owner(service_name@) {
            Some(i) => {
                let state = manager.instances()[i].state;
                let s = state.services()[state.names()[service_name@]];
                if s.users().contains_key(username@) {
                    r matches Ok(user) && user.username == s.users()[username@].username
                        && user.created_at == s.users()[username@].created_at
                } else {
                    r matches Err(kind) && no_such_user(kind, username@)
                }
            },
            None => r matches Err(kind) && no_such_service(kind, service_name@),
        },
{
    let i = match manager.proxy(service_name) {
        Ok(i) => i,
        Err(e) => {
            return Err(ApiErrorKind::from(e));
        },
    };
    match manager.proxy_at(i).get_user(service_name, username) {
        Ok(u) => Ok(user_of(u)),
        Err(e) => Err(ApiErrorKind::from(e)),
    }
}

/// Removes a user of a service.
pub fn delete_user(manager: &mut ProxyManager, service_name: &str, username: &str) -> (r: Result<
    (),
    ApiErrorKind,
>)
    requires
        old(manager).wf(),
    ensures
        final(manager).wf(),
        match old(manager).owner(service_name@) {
            Some(i) => {
                &&& ProxyManager::changed_at(*old(manager), *final(manager), i)
                &&& exists|outcome: Result<(), Error>|
                    Proxy::user_removed(
                        old(manager).instances()[i],
                        final(manager).instances()[i],
                        service_name@,
                        username@,
                        outcome,
                    ) && answered(r, outcome)
            },
            None => (r matches Err(kind) && no_such_service(kind, service_name@)) && *final(manager)
                == *old(manager),
        },
{
    let i = match manager.proxy(service_name) {
        Ok(i) => i,
        Err(e) => {
            return Err(ApiErrorKind::from(e));
        },
    };
    let outcome = manager.remove_user(i, service_name, username);
    let ghost witness = outcome;
    let r = answer(outcome);
    assert(Proxy::user_removed(
        old(manager).instances()[i as int],
        manager.instances()[i as int],
        service_name@,
        username@,
        witness,
    ) && answered(r, witness));
    r
}

/// Retrieves the number of requests counted for a user, on the instance of
/// the service.
pub fn get_user_stats(manager: &ProxyManager, service_name: &str, username: &str) -> (r: Result<
    UserStats,
    ApiErrorKind,
>)
    requires
        manager.wf(),
    ensures
        match manager.owner(service_name@) {
            Some(i) => {
                let counters = manager.instances()[i].stats.user_requests();
                if counters.contains_key(username@) {
                    r matches Ok(stats) && stats.requests == counters[username@]
                } else {
                    r matches Err(kind) && no_such_user(kind, username@)
                }
            },
            None => r matches Err(kind) && no_such_service(kind, service_name@),
        },
{
    let i = match manager.proxy(service_name) {
        Ok(i) => i,
        Err(e) => {
            return Err(ApiErrorKind::from(e));
        },
    };
    match manager.proxy_at(i).stats.user(username) {
        Some(requests) => Ok(UserStats { requests }),
        None => Err(ApiErrorKind::from(Error::User(UserError::NotFound(username.to_owned())))),
    }
}

/// Retrieves the number of requests counted for a user at each endpoint, on
/// the instance of the service.
pub fn get_user_endpoint_stats(manager: &ProxyManager, service_name: &str, username: &str) -> (r:
    Result<UserEndpointStats, ApiErrorKind>)
    requires
        manager.wf(),
    ensures
        match manager.owner(service_name@) {
            Some(i) => {
                let counters = manager.instances()[i].stats.user_endpoint_requests();
                if counters.contains_key(username@) {
                    r matches Ok(stats) && stats.0.wf() && stats.0@ == counters[username@]
                } else {
                    r matches Err(kind) && no_such_user(kind, username@)
                }
            },
            None => r matches Err(kind) && no_such_service(kind, service_name@),
        },
{
    let i = match manager.proxy(service_name) {
        Ok(i) => i,
        Err(e) => {
            return Err(ApiErrorKind::from(e));
        },
    };
    match manager.proxy_at(i).stats.user_endpoint(username) {
        Some(counters) => Ok(UserEndpointStats(counters.duplicate())),
        None => Err(ApiErrorKind::from(Error::User(UserError::NotFound(username.to_owned())))),
    }
}

/// Shuts the proxy down: stops every instance. The result says, instance by
/// instance, whether its listeners are to be told to shut down.
pub fn post_shutdown(manager: &mut ProxyManager) -> (signals: Vec<bool>)
    requires
        old(manager).wf(),
    ensures
        final(manager).wf(),
        final(manager).instances() == Seq::<Proxy>::empty(),
        signals@.len() == old(manager).instances().len(),
        forall|i: int|
            0 <= i < signals@.len() ==> signals@[i] == (#[trigger] old(manager).instances()[i]).running,
{
    manager.stop()
}

} // verus!
