//! The values exchanged with the management interface: service and user
//! descriptors, statistics and the error body.

use vstd::prelude::*;
use crate::addr::{is_port_list, is_union, Addresses, SocketAddress};
use crate::strmap::StringMap;
use crate::text::{concat2, decimal, to_decimal};
use crate::uri::Uri;

verus! {

/// A point in time: whole seconds since the Unix epoch, and the nanoseconds
/// within the second.
#[derive(Clone, Copy, Debug, PartialEq, Eq, PartialOrd, Ord, Hash, Structural)]
pub struct Timestamp {
    pub secs: i64,
    pub nanos: u32,
}

/// A reading of the system clock: how far it stands from the Unix epoch, in
/// whole seconds and nanoseconds below one second, and on which side.
#[derive(Clone, Copy, Debug, PartialEq, Eq, Structural)]
pub struct ClockReading {
    pub before_epoch: bool,
    pub secs: u64,
    pub nanos: u32,
}

/// Calls `std::time::UNIX_EPOCH.elapsed()`, which gives the time from the
/// epoch to the system clock, or, as its error, the time from the clock to
/// the epoch. Only the range of the nanoseconds of a `Duration` is claimed.
#[verifier::external_body]
fn since_epoch() -> (r: ClockReading)
    ensures
        r.nanos < 1_000_000_000,
{
    match std::time::UNIX_EPOCH.elapsed() {
        Ok(d) => ClockReading { before_epoch: false, secs: d.as_secs(), nanos: d.subsec_nanos() },
        Err(e) => ClockReading {
            before_epoch: true,
            secs: e.duration().as_secs(),
            nanos: e.duration().subsec_nanos(),
        },
    }
}

impl Timestamp {
    /// The current time: the reading of the system clock as a timestamp.
    /// Which time it is cannot be said; the nanoseconds are those of one
    /// second. A clock that stands before the epoch gives negative seconds.
    pub fn now() -> (r: Timestamp)
        ensures
            r.is_reading(),
    {
        Timestamp::from_reading(since_epoch())
    }

    /// Whether the value can be a reading of the clock: its nanoseconds are
    /// those of one second.
    pub open spec fn is_reading(self) -> bool {
        self.nanos < 1_000_000_000
    }

    /// The seconds of a reading as a signed number, the largest such number
    /// standing for anything beyond it.
    pub open spec fn capped(secs: u64) -> i64 {
        if secs > i64::MAX {
            i64::MAX
        } else {
            secs as i64
        }
    }

    /// The timestamp of a reading of the clock. After the epoch it is the
    /// reading itself. Before the epoch the seconds are negative, and the
    /// nanoseconds count forward from the whole second before the reading.
    pub open spec fn of_reading(reading: ClockReading) -> Timestamp {
        let secs = Timestamp::capped(reading.secs);
        if !reading.before_epoch {
            Timestamp { secs, nanos: reading.nanos }
        } else if reading.nanos == 0 {
            Timestamp { secs: (-secs) as i64, nanos: 0 }
        } else {
            Timestamp { secs: (-secs - 1) as i64, nanos: (1_000_000_000 - reading.nanos) as u32 }
        }
    }

    /// Turns a reading of the clock into a timestamp.
    pub fn from_reading(reading: ClockReading) -> (r: Timestamp)
        requires
            reading.nanos < 1_000_000_000,
        ensures
            r == Timestamp::of_reading(reading),
            r.is_reading(),
    {
        let secs: i64 = if reading.secs > 0x7fff_ffff_ffff_ffff {
            0x7fff_ffff_ffff_ffff
        } else {
            reading.secs as i64
        };
        if !reading.before_epoch {
            Timestamp { secs, nanos: reading.nanos }
        } else if reading.nanos == 0 {
            Timestamp { secs: -secs, nanos: 0 }
        } else {
            Timestamp { secs: -secs - 1, nanos: 1_000_000_000 - reading.nanos }
        }
    }

    /// Whether `self` is not later than `other`.
    pub open spec fn at_or_before(self, other: Timestamp) -> bool {
        self.secs < other.secs || (self.secs == other.secs && self.nanos <= other.nanos)
    }

    /// Whether `self` is not later than `other`.
    pub fn not_after(&self, other: &Timestamp) -> (r: bool)
        ensures
            r == self.at_or_before(*other),
    {
        self.secs < other.secs || (self.secs == other.secs && self.nanos <= other.nanos)
    }
}

/// Authorization method.
#[non_exhaustive]
#[derive(Clone, Copy, Debug, PartialEq, Eq, Structural)]
pub enum AuthMethod {
    /// HTTP basic auth.
    Basic,
}

impl Default for AuthMethod {
    fn default() -> (r: Self)
        ensures
            r == AuthMethod::Basic,
    {
        AuthMethod::Basic
    }
}

impl AuthMethod {
    /// The name of the method on the wire.
    pub fn name(&self) -> (r: &'static str)
        ensures
            r@ == "basic"@,
    {
        "basic"
    }

    /// Reads a method from its name on the wire. A name that is not known is
    /// refused, with a message that names it.
    pub fn from_name(name: &str) -> (r: Result<AuthMethod, String>)
        ensures
            match r {
                Ok(m) => name@ == "basic"@ && m == AuthMethod::Basic,
                Err(e) => name@ != "basic"@ && e@ == "unknown authorization method '"@ + name@
                    + "'"@,
            },
    {
        if crate::text::str_eq(name, "basic") {
            Ok(AuthMethod::Basic)
        } else {
            Err(crate::text::concat3("unknown authorization method '", name, "'"))
        }
    }
}

/// Authorization configuration.
#[derive(Clone, Copy, Debug, PartialEq, Eq, Structural)]
pub struct Auth {
    /// Authorization method.
    pub method: AuthMethod,
}

/// Timeout configuration, in milliseconds.
#[derive(Clone, Copy, Debug, PartialEq, Eq, Structural)]
pub struct Timeouts {
    /// Timeout for requests.
    pub request_timeout: Option<u64>,
    /// Max wait time for response.
    pub response_timeout: Option<u64>,
}

/// HTTP request forward options.
#[derive(Clone, Copy, Debug, PartialEq, Eq, Structural)]
pub struct CreateServiceUser {
    /// Authorization options.
    pub auth: Option<Auth>,
    /// Timeout configuration.
    pub timeouts: Option<Timeouts>,
}

/// Service certificate configuration.
#[derive(Clone, Debug)]
pub struct CreateServiceCert {
    /// Digest of the certificate file, as `sha3:` and hexadecimal digits.
    pub hash: String,
    /// Certificate path on disk.
    pub path: String,
    /// Certificate key path on disk.
    pub key_path: String,
}

impl PartialEq for CreateServiceCert {
    /// Two certificate configurations are equal when they name the same
    /// files; the digest is not compared.
    fn eq(&self, other: &Self) -> (r: bool) {
        self.path == other.path && self.key_path == other.key_path
    }
}

impl vstd::std_specs::cmp::PartialEqSpecImpl for CreateServiceCert {
    open spec fn obeys_eq_spec() -> bool {
        true
    }

    open spec fn eq_spec(&self, other: &Self) -> bool {
        self.path@ == other.path@ && self.key_path@ == other.key_path@
    }
}

impl Eq for CreateServiceCert {

}

impl CreateServiceCert {
    /// A copy of this configuration.
    pub fn duplicate(&self) -> (r: Self)
        ensures
            r == *self,
    {
        CreateServiceCert {
            hash: self.hash.clone(),
            path: self.path.clone(),
            key_path: self.key_path.clone(),
        }
    }
}

/// New service descriptor.
#[derive(Clone, Debug, PartialEq, Eq)]
pub struct CreateService {
    /// Unique service name.
    pub name: String,
    /// Domain names or public IP addresses.
    pub server_name: Vec<String>,
    /// HTTPS listening addresses.
    pub bind_https: Option<Addresses>,
    /// HTTP listening addresses.
    pub bind_http: Option<Addresses>,
    /// Certificate configuration.
    pub cert: Option<CreateServiceCert>,
    /// Authorization options.
    pub auth: Option<Auth>,
    /// Source endpoint (e.g. `/resource`).
    pub from: String,
    /// Destination URL (e.g. `http://127.0.0.1:8080`).
    pub to: Uri,
    /// Timeout configuration.
    pub timeouts: Option<Timeouts>,
    /// Number of CPU (worker) threads to use.
    pub cpu_threads: Option<usize>,
    /// Forwarding options.
    pub user: Option<CreateServiceUser>,
}

/// The addresses of an optional binding, none when it is not set.
pub open spec fn binding(bind: Option<Addresses>) -> Seq<SocketAddress> {
    match bind {
        Some(a) => a@,
        None => Seq::empty(),
    }
}

/// The union of two optional bindings.
pub fn bindings_union(https: &Option<Addresses>, http: &Option<Addresses>) -> (r: Addresses)
    ensures
        r.wf(),
        is_union(r@, binding(*https), binding(*http)),
{
    let mut r = Addresses::empty();
    let ghost empty = r@;
    match https {
        Some(a) => {
            r.extend(&a.to_vec());
        },
        None => {},
    }
    let ghost mid = r@;
    match http {
        Some(a) => {
            r.extend(&a.to_vec());
        },
        None => {},
    }
    proof {
        assert forall|x: SocketAddress| #[trigger] r@.contains(x) implies binding(*https).contains(x)
            || binding(*http).contains(x) by {
            if mid.contains(x) {
                assert(!empty.contains(x));
            }
        }
        assert forall|x: SocketAddress| #[trigger] binding(*https).contains(x) implies r@.contains(
            x,
        ) by {
            assert(mid.contains(x));
        }
    }
    r
}

/// The ports of an optional binding.
pub fn binding_ports(bind: &Option<Addresses>) -> (p: Vec<u16>)
    ensures
        is_port_list(p@, binding(*bind)),
{
    match bind {
        Some(addrs) => addrs.ports(),
        None => Vec::new(),
    }
}

impl CreateService {
    /// Whether `other` holds the same values as `self`.
    pub open spec fn same(self, other: CreateService) -> bool {
        &&& self.name@ == other.name@
        &&& self.server_name@ == other.server_name@
        &&& binding(self.bind_https) == binding(other.bind_https)
        &&& self.bind_https is Some <==> other.bind_https is Some
        &&& binding(self.bind_http) == binding(other.bind_http)
        &&& self.bind_http is Some <==> other.bind_http is Some
        &&& self.cert == other.cert
        &&& self.auth == other.auth
        &&& self.from@ == other.from@
        &&& self.to == other.to
        &&& self.timeouts == other.timeouts
        &&& self.cpu_threads == other.cpu_threads
        &&& self.user == other.user
    }

    /// A copy of this descriptor.
    pub fn duplicate(&self) -> (r: Self)
        ensures
            self.same(r),
    {
        CreateService {
            name: self.name.clone(),
            server_name: self.server_name.clone(),
            bind_https: match &self.bind_https {
                Some(a) => Some(a.duplicate()),
                None => None,
            },
            bind_http: match &self.bind_http {
                Some(a) => Some(a.duplicate()),
                None => None,
            },
            cert: match &self.cert {
                Some(c) => Some(c.duplicate()),
                None => None,
            },
            auth: self.auth,
            from: self.from.clone(),
            to: self.to.duplicate(),
            timeouts: self.timeouts,
            cpu_threads: self.cpu_threads,
            user: self.user,
        }
    }

    /// The binding key of the service: all its listening addresses, for
    /// `https` and `http`.
    pub fn addresses(&self) -> (r: Addresses)
        ensures
            r.wf(),
            is_union(r@, binding(self.bind_https), binding(self.bind_http)),
    {
        bindings_union(&self.bind_https, &self.bind_http)
    }

    /// The listening ports of the `https` addresses.
    pub fn https_ports(&self) -> (p: Vec<u16>)
        ensures
            is_port_list(p@, binding(self.bind_https)),
    {
        binding_ports(&self.bind_https)
    }

    /// The listening ports of the `http` addresses.
    pub fn http_ports(&self) -> (p: Vec<u16>)
        ensures
            is_port_list(p@, binding(self.bind_http)),
    {
        binding_ports(&self.bind_http)
    }
}

/// Service descriptor: what the service was created with, and when.
#[derive(Clone, Debug, PartialEq, Eq)]
pub struct Service {
    pub inner: CreateService,
    /// Creation date.
    pub created_at: Timestamp,
}

impl Service {
    /// The descriptor of a service created with `inner` at `created_at`.
    pub fn from(inner: CreateService, created_at: Timestamp) -> (r: Service)
        ensures
            r.inner == inner,
            r.created_at == created_at,
    {
        Service { inner, created_at }
    }
}

/// Public service information: a service descriptor without its bindings'
/// addresses, its paths and its destination.
#[derive(Clone, Debug, PartialEq, Eq)]
pub struct PubService {
    /// Service name.
    pub name: String,
    /// Host names.
    pub server_name: Vec<String>,
    /// Time when the service was created.
    pub created_at: Timestamp,
    /// Ports for `https` connections, each once, in increasing order.
    pub port_https: Vec<u16>,
    /// Ports for `http` connections, each once, in increasing order.
    pub port_http: Vec<u16>,
    /// Certificate digest.
    pub cert_hash: Option<String>,
    /// Service timeout rules.
    pub timeouts: Option<Timeouts>,
    /// How many CPU threads are started for the service.
    pub cpu_threads: Option<usize>,
}

impl PubService {
    /// The public view of `service`.
    pub fn from(service: Service) -> (r: PubService)
        ensures
            r.name == service.inner.name,
            r.server_name == service.inner.server_name,
            r.created_at == service.created_at,
            r.timeouts == service.inner.timeouts,
            r.cpu_threads == service.inner.cpu_threads,
            match service.inner.cert {
                Some(c) => r.cert_hash == Some(c.hash),
                None => r.cert_hash is None,
            },
            is_port_list(r.port_https@, binding(service.inner.bind_https)),
            is_port_list(r.port_http@, binding(service.inner.bind_http)),
    {
        let port_https = service.inner.https_ports();
        let port_http = service.inner.http_ports();
        let cert_hash = match service.inner.cert {
            Some(c) => Some(c.hash),
            None => None,
        };
        PubService {
            name: service.inner.name,
            server_name: service.inner.server_name,
            created_at: service.created_at,
            port_https,
            port_http,
            cert_hash,
            timeouts: service.inner.timeouts,
            cpu_threads: service.inner.cpu_threads,
        }
    }
}

/// New user descriptor.
#[derive(Clone, Debug, PartialEq, Eq)]
pub struct CreateUser {
    /// Http auth user name.
    pub username: String,
    /// Password for the new user.
    pub password: String,
}

/// User descriptor.
#[derive(Clone, Debug, PartialEq, Eq)]
pub struct User {
    /// User name.
    pub username: String,
    /// Time when the user was created.
    pub created_at: Timestamp,
}

/// Aggregated user statistics.
#[derive(Clone, Copy, Debug, PartialEq, Eq, Structural)]
pub struct UserStats {
    /// Number of user requests.
    pub requests: usize,
}

impl Default for UserStats {
    fn default() -> (r: Self)
        ensures
            r.requests == 0,
    {
        UserStats { requests: 0 }
    }
}

/// User statistics per endpoint.
pub struct UserEndpointStats(pub StringMap<usize>);

/// Error response.
#[derive(Clone, Debug, PartialEq, Eq)]
pub struct ErrorResponse {
    /// Human readable error message.
    pub message: String,
}

/// Global statistics.
#[derive(Clone, Copy, Debug, PartialEq, Eq, Structural)]
pub struct GlobalStats {
    /// Number of registered users.
    pub users: usize,
    /// Number of created services.
    pub services: usize,
    pub requests: UserStats,
}

impl Default for GlobalStats {
    fn default() -> (r: Self)
        ensures
            r.users == 0,
            r.services == 0,
            r.requests.requests == 0,
    {
        GlobalStats { users: 0, services: 0, requests: UserStats { requests: 0 } }
    }
}

/// The name given to a service created without one: `service-` and the
/// number of names given before. The count goes up by one and wraps around
/// at the largest number.
pub fn next_service_name(issued: &mut usize) -> (name: String)
    ensures
        name@ == "service-"@ + decimal(*old(issued) as nat),
        *final(issued) == if *old(issued) == usize::MAX {
            0
        } else {
            (*old(issued) + 1) as usize
        },
{
    let id = *issued;
    *issued = if id == usize::MAX {
        0
    } else {
        id + 1
    };
    concat2("service-", to_decimal(id as u64).as_str())
}

} // verus!
