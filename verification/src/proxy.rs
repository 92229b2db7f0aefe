//! A proxy instance and the manager that keeps the running instances, one
//! for each set of listening addresses.

use vstd::prelude::*;
use vstd::utf8::encode_utf8;
use crate::addr::{is_union, lemma_sorted_unique, Addresses, SocketAddress};
use crate::codec::codec_limit;
use crate::conf::{copy_binding, copy_opt_string, ProxyConf, ServerCertConf, ServerConf};
use crate::error::{Error, ProxyError, ServiceError};
use crate::handler::{
    authorize, authorized_outcome, decided, forward_authorized, forward_req, is_response,
    outcome, verdict, Authorized, ForwardDecision, ForwardRequest, Rejection, Verdict, NOT_FOUND,
    UNAUTHORIZED,
};
use crate::model::{binding, CreateService, CreateServiceCert, Service, Timestamp};
use crate::service::ProxyUser;
use crate::state::{endpoint_of, service_added, service_removed, user_added, user_removed, ProxyState};
use crate::stats::ProxyStats;
use crate::tls::{cert_digest, cert_hash, unreadable_cert};
use crate::uri::{opt_view, path_of};

verus! {

/// The listeners that an instance opens.
pub struct ListenPlan {
    /// The addresses of the HTTPS listener, when there is one.
    pub https: Option<Vec<SocketAddress>>,
    /// The addresses of the HTTP listener, when there is one.
    pub http: Option<Vec<SocketAddress>>,
}

/// A proxy instance: its configuration, its services, its counters, and
/// whether its listeners are up.
pub struct Proxy {
    pub conf: ProxyConf,
    pub state: ProxyState,
    pub stats: ProxyStats,
    pub running: bool,
}

/// The addresses in an optional list, as an optional binding has them.
pub open spec fn listed(addrs: Option<Vec<SocketAddress>>, bind: Option<Addresses>) -> bool {
    match (addrs, bind) {
        (Some(v), Some(a)) => v@ == a@,
        (None, None) => true,
        _ => false,
    }
}

/// The service error inside a result, where the error is one.
pub open spec fn service_result<T>(r: Result<T, Error>) -> Result<T, ServiceError> {
    match r {
        Ok(v) => Ok(v),
        Err(Error::Service(e)) => Err(e),
        Err(_) => Err(arbitrary()),
    }
}

impl Proxy {
    /// Well-formedness: the services and the counters are well formed.
    pub open spec fn wf(self) -> bool {
        self.state.wf() && self.stats.wf()
    }

    /// Whether `key` is the binding of the instance: the union of its HTTPS
    /// and HTTP addresses, in order.
    pub open spec fn bound_to(self, key: Seq<SocketAddress>) -> bool {
        &&& crate::addr::strictly_sorted(key)
        &&& is_union(key, binding(self.conf.server.bind_https), binding(self.conf.server.bind_http))
    }

    /// An instance with the given configuration, without services, not running.
    pub fn new(conf: ProxyConf) -> (p: Proxy)
        ensures
            p.wf(),
            p.conf == conf,
            !p.running,
            p.state.services() == Map::<Seq<char>, crate::service::ProxyService>::empty(),
            p.state.names() == Map::<Seq<char>, Seq<char>>::empty(),
            p.stats.total_requests() == 0,
    {
        Proxy { conf, state: ProxyState::new(), stats: ProxyStats::new(), running: false }
    }

    /// Checks that the instance can start and says which listeners to open.
    /// An instance without listening addresses cannot start, nor one that is
    /// running.
    pub fn start(&self) -> (r: Result<ListenPlan, ProxyError>)
        ensures
            match r {
                Ok(plan) => {
                    &&& !self.running
                    &&& self.conf.server.bind_https is Some || self.conf.server.bind_http is Some
                    &&& listed(plan.https, self.conf.server.bind_https)
                    &&& listed(plan.http, self.conf.server.bind_http)
                },
                Err(ProxyError::Conf(m)) => self.conf.server.bind_https is None
                    && self.conf.server.bind_http is None && m@
                    == "No listening addresses specified"@,
                Err(ProxyError::AlreadyRunning(addrs)) => (self.conf.server.bind_https is Some
                    || self.conf.server.bind_http is Some) && self.running && self.bound_to(addrs@),
                Err(_) => false,
            },
    {
        if self.conf.server.bind_https.is_none() && self.conf.server.bind_http.is_none() {
            return Err(ProxyError::Conf("No listening addresses specified".to_owned()));
        }
        if self.running {
            return Err(ProxyError::AlreadyRunning(self.conf.server.addresses()));
        }
        let https = match &self.conf.server.bind_https {
            Some(a) => Some(a.to_vec()),
            None => None,
        };
        let http = match &self.conf.server.bind_http {
            Some(a) => Some(a.to_vec()),
            None => None,
        };
        Ok(ListenPlan { https, http })
    }

    /// Records that the listeners are up.
    pub fn started(&mut self)
        ensures
            final(self).running,
            final(self).conf == old(self).conf,
            final(self).state == old(self).state,
            final(self).stats == old(self).stats,
    {
        self.running = true;
    }

    /// Stops the instance: says whether the listeners were up and are to be
    /// told to shut down.
    pub fn stop(&mut self) -> (signal: bool)
        ensures
            signal == old(self).running,
            !final(self).running,
            final(self).conf == old(self).conf,
            final(self).state == old(self).state,
            final(self).stats == old(self).stats,
    {
        let was = self.running;
        self.running = false;
        was
    }

    /// Whether the instance has a service called `service_name`.
    pub fn contains(&self, service_name: &str) -> (r: bool)
        requires
            self.wf(),
        ensures
            r == self.state.names().contains_key(service_name@),
    {
        self.state.contains(service_name)
    }

    /// The descriptor of the service called `service_name`.
    pub fn get(&self, service_name: &str) -> (r: Result<Service, Error>)
        requires
            self.wf(),
        ensures
            match r {
                Ok(s) => {
                    let e = self.state.names()[service_name@];
                    &&& self.state.names().contains_key(service_name@)
                    &&& s.created_at == self.state.services()[e].created()
                    &&& self.state.services()[e].descriptor().same(s.inner)
                },
                Err(Error::Service(ServiceError::NotFound(n))) => !self.state.names().contains_key(
                    service_name@,
                ) && n@ == service_name@,
                Err(_) => false,
            },
    {
        match self.state.get_service(service_name) {
            Ok(service) => Ok(service.to_service()),
            Err(e) => Err(Error::Service(e)),
        }
    }

    /// Whether `after` and `r` are what adding a service created with
    /// `create` at `now` makes of `before`: the service is added to the
    /// state and the counter of its endpoint starts at zero; where the
    /// service is refused nothing changes.
    pub open spec fn added(before: Proxy, after: Proxy, create: CreateService, now: Timestamp, r: Result<Service, Error>) -> bool {
        &&& after.conf == before.conf
        &&& after.running == before.running
        &&& r is Err ==> r->Err_0 is Service
        &&& service_added(before.state, after.state, create, now, service_result(r))
        &&& match r {
            Ok(_) => {
                &&& after.stats.total_requests() == before.stats.total_requests()
                &&& after.stats.endpoint_requests() == before.stats.endpoint_requests().insert(
                    endpoint_of(create.from@),
                    0,
                )
                &&& after.stats.user_requests() == before.stats.user_requests()
                &&& after.stats.user_endpoint_requests() == before.stats.user_endpoint_requests()
            },
            Err(_) => after.stats == before.stats,
        }
    }

    /// Adds a service created at `now`.
    pub fn add_at(&mut self, create: CreateService, now: Timestamp) -> (r: Result<Service, Error>)
        requires
            old(self).wf(),
        ensures
            final(self).wf(),
            Proxy::added(*old(self), *final(self), create, now, r),
    {
        match self.state.add_service_at(create, now) {
            Ok(service) => {
                self.stats.reset_endpoint(service.inner.from.as_str());
                Ok(service)
            },
            Err(e) => Err(Error::Service(e)),
        }
    }

    /// Adds a service created now.
    pub fn add(&mut self, create: CreateService) -> (r: Result<Service, Error>)
        requires
            old(self).wf(),
        ensures
            final(self).wf(),
            exists|now: Timestamp| Proxy::added(*old(self), *final(self), create, now, r),
    {
        let now = Timestamp::now();
        let r = self.add_at(create, now);
        assert(Proxy::added(*old(self), *self, create, now, r));
        r
    }

    /// Whether `after` and `r` are what removing the service called
    /// `service_name` makes of `before`.
    pub open spec fn removed(before: Proxy, after: Proxy, service_name: Seq<char>, r: Result<(), Error>) -> bool {
        &&& after.conf == before.conf
        &&& after.running == before.running
        &&& after.stats == before.stats
        &&& r is Err ==> r->Err_0 is Service
        &&& service_removed(before.state, after.state, service_name, service_result(r))
    }

    /// Removes the service called `service_name`.
    pub fn remove(&mut self, service_name: &str) -> (r: Result<(), Error>)
        requires
            old(self).wf(),
        ensures
            final(self).wf(),
            Proxy::removed(*old(self), *final(self), service_name@, r),
    {
        match self.state.remove_service(service_name) {
            Ok(()) => Ok(()),
            Err(e) => Err(Error::Service(e)),
        }
    }

    /// The users of the service called `service_name`, in the order in
    /// which they were added.
    pub fn get_users(&self, service_name: &str) -> (r: Result<Vec<ProxyUser>, Error>)
        requires
            self.wf(),
        ensures
            match r {
                Ok(users) => {
                    let s = self.state.services()[self.state.names()[service_name@]];
                    &&& self.state.names().contains_key(service_name@)
                    &&& users@.len() == s.user_names().len()
                    &&& forall|i: int|
                        0 <= i < users@.len() ==> s.users().contains_key(#[trigger] s.user_names()[i])
                            && users@[i] == s.users()[s.user_names()[i]]
                },
                Err(Error::Service(ServiceError::NotFound(n))) => !self.state.names().contains_key(
                    service_name@,
                ) && n@ == service_name@,
                Err(_) => false,
            },
    {
        match self.state.get_service(service_name) {
            Ok(service) => Ok(service.get_users()),
            Err(e) => Err(Error::Service(e)),
        }
    }

    /// The user called `username` of the service called `service_name`.
    pub fn get_user(&self, service_name: &str, username: &str) -> (r: Result<ProxyUser, Error>)
        requires
            self.wf(),
        ensures
            match r {
                Ok(u) => {
                    let s = self.state.services()[self.state.names()[service_name@]];
                    &&& self.state.names().contains_key(service_name@)
                    &&& s.users().contains_key(username@)
                    &&& u == s.users()[username@]
                },
                Err(Error::Service(ServiceError::NotFound(n))) => !self.state.names().contains_key(
                    service_name@,
                ) && n@ == service_name@,
                Err(Error::User(crate::error::UserError::NotFound(n))) => {
                    &&& self.state.names().contains_key(service_name@)
                    &&& !self.state.services()[self.state.names()[service_name@]].users().contains_key(
                        username@,
                    )
                    &&& n@ == username@
                },
                Err(_) => false,
            },
    {
        match self.state.get_service(service_name) {
            Ok(service) => match service.get_user(username) {
                Ok(u) => Ok(u),
                Err(e) => Err(Error::User(e)),
            },
            Err(e) => Err(Error::Service(e)),
        }
    }

    /// Whether `after` and `r` are what adding a user makes of `before`: the
    /// user is added to the service and its counters start at zero; where
    /// the user is refused nothing changes.
    pub open spec fn user_added(
        before: Proxy,
        after: Proxy,
        service_name: Seq<char>,
        username: Seq<char>,
        password: Seq<char>,
        now: Timestamp,
        r: Result<ProxyUser, Error>,
    ) -> bool {
        &&& after.conf == before.conf
        &&& after.running == before.running
        &&& user_added(before.state, after.state, service_name, username, password, now, r)
        &&& match r {
            Ok(_) => {
                &&& after.stats.total_requests() == before.stats.total_requests()
                &&& after.stats.endpoint_requests() == before.stats.endpoint_requests()
                &&& after.stats.user_requests() == before.stats.user_requests().insert(username, 0)
                &&& after.stats.user_endpoint_requests()
                    == before.stats.user_endpoint_requests().insert(username, Map::empty())
            },
            Err(_) => after.stats == before.stats,
        }
    }

    /// Adds a user, created at `now`, to the service called `service_name`.
    pub fn add_user_at(&mut self, service_name: &str, username: &str, password: &str, now: Timestamp) -> (r:
        Result<ProxyUser, Error>)
        requires
            old(self).wf(),
            encode_utf8(username@ + seq![':'] + password@).len() <= codec_limit(),
        ensures
            final(self).wf(),
            Proxy::user_added(*old(self), *final(self), service_name@, username@, password@, now, r),
    {
        match self.state.add_user_at(service_name, username, password, now) {
            Ok(user) => {
                self.stats.reset_user(user.username.as_str());
                Ok(user)
            },
            Err(e) => Err(e),
        }
    }

    /// Adds a user, created now, to the service called `service_name`.
    pub fn add_user(&mut self, service_name: &str, username: &str, password: &str) -> (r: Result<
        ProxyUser,
        Error,
    >)
        requires
            old(self).wf(),
            encode_utf8(username@ + seq![':'] + password@).len() <= codec_limit(),
        ensures
            final(self).wf(),
            exists|now: Timestamp|
                Proxy::user_added(
                    *old(self),
                    *final(self),
                    service_name@,
                    username@,
                    password@,
                    now,
                    r,
                ),
    {
        let now = Timestamp::now();
        let r = self.add_user_at(service_name, username, password, now);
        assert(Proxy::user_added(*old(self), *self, service_name@, username@, password@, now, r));
        r
    }

    /// Whether `after` and `r` are what removing a user makes of `before`.
    pub open spec fn user_removed(
        before: Proxy,
        after: Proxy,
        service_name: Seq<char>,
        username: Seq<char>,
        r: Result<(), Error>,
    ) -> bool {
        &&& after.conf == before.conf
        &&& after.running == before.running
        &&& after.stats == before.stats
        &&& user_removed(before.state, after.state, service_name, username, r)
    }

    /// Removes a user from the service called `service_name`.
    pub fn remove_user(&mut self, service_name: &str, username: &str) -> (r: Result<(), Error>)
        requires
            old(self).wf(),
        ensures
            final(self).wf(),
            Proxy::user_removed(*old(self), *final(self), service_name@, username@, r),
    {
        self.state.remove_user(service_name, username)
    }

    /// Whether `after` and `r` are what a request from `peer_ip` makes of
    /// `before`.
    pub open spec fn forwarded(before: Proxy, after: Proxy, req: ForwardRequest, peer_ip: Seq<char>, r: ForwardDecision) -> bool {
        &&& after.conf == before.conf
        &&& after.running == before.running
        &&& after.state == before.state
        &&& decided(
            outcome(before.state, req.uri@, opt_view(req.authorization)),
            req,
            peer_ip,
            before.stats,
            after.stats,
            r,
        )
    }

    /// Looks a request up among the services of the instance and checks its
    /// credentials: the first part of [`Proxy::forward`], which leaves the
    /// counters alone.
    pub fn authorize(&self, req: &ForwardRequest) -> (r: Result<Authorized, Rejection>)
        requires
            self.wf(),
        ensures
            match verdict(self.state, path_of(req.uri@), opt_view(req.authorization)) {
                Verdict::NoService => r matches Err(rej) && is_response(rej, NOT_FOUND),
                Verdict::NoAccess => r matches Err(rej) && is_response(rej, UNAUTHORIZED),
                Verdict::Pass { endpoint, token } => r matches Ok(a) && a.token@ == token && a.from@
                    == endpoint && a.to == self.state.services()[endpoint].descriptor().to,
            },
    {
        authorize(req, &self.state)
    }

    /// Counts an authorized request and says where it is sent: the second
    /// part of [`Proxy::forward`], which leaves the services alone.
    pub fn forward_authorized(&mut self, authorized: &Authorized, req: &ForwardRequest, peer_ip: &str) -> (r:
        ForwardDecision)
        requires
            old(self).wf(),
            old(self).stats.total_requests() < usize::MAX,
            encode_utf8(authorized.token@).len() <= codec_limit(),
        ensures
            final(self).wf(),
            final(self).conf == old(self).conf,
            final(self).running == old(self).running,
            final(self).state == old(self).state,
            decided(
                authorized_outcome(req.uri@, *authorized),
                *req,
                peer_ip@,
                old(self).stats,
                final(self).stats,
                r,
            ),
    {
        forward_authorized(authorized, req, &mut self.stats, peer_ip)
    }

    /// Decides what becomes of a request that reached a listener of the
    /// instance from `peer_ip`, and counts it.
    pub fn forward(&mut self, req: &ForwardRequest, peer_ip: &str) -> (r: ForwardDecision)
        requires
            old(self).wf(),
            crate::handler::passes(old(self).state, *req) ==> old(self).stats.total_requests()
                < usize::MAX,
            req.authorization matches Some(a) ==> encode_utf8(a@).len() <= codec_limit(),
        ensures
            final(self).wf(),
            Proxy::forwarded(*old(self), *final(self), *req, peer_ip@, r),
    {
        forward_req(req, &self.state, &mut self.stats, peer_ip)
    }
}

/// The number of worker threads of a service: its own number, else the
/// default; never less than one.
pub open spec fn merged_threads(own: Option<usize>, default: Option<usize>) -> Option<usize> {
    let n = match own {
        Some(n) => Some(n),
        None => default,
    };
    match n {
        Some(n) => Some(if n < 1 {
            1usize
        } else {
            n
        }),
        None => None,
    }
}

/// Whether two optional bindings hold the same addresses.
pub open spec fn same_binding(a: Option<Addresses>, b: Option<Addresses>) -> bool {
    binding(a) == binding(b) && (a is Some <==> b is Some)
}

/// The path of the certificate file that is read when a service is created
/// with `create` under the defaults `default`: that of the service's own
/// certificate; else the default certificate, where a default key is set as
/// well.
pub open spec fn cert_source(default: ServerCertConf, create: CreateService) -> Option<Seq<char>> {
    match create.cert {
        Some(c) => Some(c.path@),
        None => match (default.server_cert_store_path, default.server_key_path) {
            (Some(p), Some(_)) => Some(p@),
            _ => None,
        },
    }
}

/// Whether `create` is `given` with the bindings, the server names and the
/// number of threads filled in from the defaults `default`; the certificate
/// is not looked at.
pub open spec fn defaults_merged(default: ServerConf, given: CreateService, create: CreateService) -> bool {
    &&& create.name == given.name
    &&& create.auth == given.auth
    &&& create.from == given.from
    &&& create.to == given.to
    &&& create.timeouts == given.timeouts
    &&& create.user == given.user
    &&& same_binding(
        create.bind_https,
        if given.bind_https is Some {
            given.bind_https
        } else {
            default.bind_https
        },
    )
    &&& same_binding(
        create.bind_http,
        if given.bind_http is Some {
            given.bind_http
        } else {
            default.bind_http
        },
    )
}

/// Whether `conf` is the effective configuration of a service created with
/// `given` under the defaults `default`: the client and the listener options
/// are the defaults'; the bindings and the server names are the service's
/// own where it has them; the certificate paths are those of the service's
/// certificate where it has one.
pub open spec fn effective(default: ProxyConf, given: CreateService, conf: ProxyConf) -> bool {
    &&& conf.client == default.client
    &&& conf.server.options() == default.server.options()
    &&& same_binding(
        conf.server.bind_https,
        if given.bind_https is Some {
            given.bind_https
        } else {
            default.server.bind_https
        },
    )
    &&& same_binding(
        conf.server.bind_http,
        if given.bind_http is Some {
            given.bind_http
        } else {
            default.server.bind_http
        },
    )
    &&& conf.server.server_name@ == if given.server_name@.len() == 0 {
        default.server.server_name@
    } else {
        given.server_name@
    }
    &&& match given.cert {
        Some(c) => conf.server.server_cert == (ServerCertConf {
            server_cert_store_path: Some(c.path),
            server_key_path: Some(c.key_path),
        }),
        None => conf.server.server_cert == default.server.server_cert,
    }
}

/// Whether `create` and `r` are what merging the defaults `default` into
/// `given` gives, where reading the certificate file brought `file`.
pub open spec fn conf_updated(
    default: ProxyConf,
    given: CreateService,
    file: Result<Vec<u8>, String>,
    create: CreateService,
    r: Result<ProxyConf, ProxyError>,
) -> bool {
    &&& defaults_merged(default.server, given, create)
    &&& if given.server_name@.len() == 0 && default.server.server_name@.len() == 0 {
        &&& r matches Err(ProxyError::Conf(m)) && m@ == "Missing public address information"@
        &&& create.server_name@ == given.server_name@
        &&& create.cpu_threads == given.cpu_threads
        &&& create.cert == given.cert
    } else {
        &&& create.server_name@ == if given.server_name@.len() == 0 {
            default.server.server_name@
        } else {
            given.server_name@
        }
        &&& create.cpu_threads == merged_threads(given.cpu_threads, default.server.cpu_threads)
        &&& match cert_source(default.server.server_cert, given) {
            None => create.cert is None && (r matches Ok(conf) && effective(default, given, conf)),
            Some(path) => match file {
                Err(reason) => create.cert == given.cert && (r matches Err(ProxyError::Conf(m))
                    && m@ == unreadable_cert(path, reason@)),
                Ok(contents) => {
                    &&& r matches Ok(conf) && effective(default, given, conf)
                    &&& create.cert matches Some(c) && c.hash@ == cert_digest(contents@) && c.path@
                        == path && match given.cert {
                        Some(g) => c.key_path == g.key_path && c.path == g.path,
                        None => Some(c.key_path) == default.server.server_cert.server_key_path,
                    }
                },
            },
        }
    }
}

/// Merges the defaults `default` into `create` and gives the effective
/// configuration of the instance that serves it. `file` is what reading the
/// certificate file named by [`cert_source`] brought; it is not looked at
/// where no file is named.
pub fn conf_update(default: &ProxyConf, create: &mut CreateService, file: &Result<Vec<u8>, String>) -> (r:
    Result<ProxyConf, ProxyError>)
    ensures
        conf_updated(*default, *old(create), *file, *final(create), r),
{
    let mut conf = default.duplicate();
    match &create.bind_https {
        Some(addrs) => {
            conf.server.bind_https = Some(addrs.duplicate());
        },
        None => {
            create.bind_https = copy_binding(&conf.server.bind_https);
        },
    }
    match &create.bind_http {
        Some(addrs) => {
            conf.server.bind_http = Some(addrs.duplicate());
        },
        None => {
            create.bind_http = copy_binding(&conf.server.bind_http);
        },
    }
    if create.server_name.len() == 0 {
        if conf.server.server_name.len() == 0 {
            return Err(ProxyError::Conf("Missing public address information".to_owned()));
        }
        create.server_name = conf.server.server_name.clone();
    } else {
        conf.server.server_name = create.server_name.clone();
    }
    let threads = match create.cpu_threads {
        Some(n) => Some(n),
        None => conf.server.cpu_threads,
    };
    create.cpu_threads = match threads {
        Some(n) => Some(if n < 1 {
            1
        } else {
            n
        }),
        None => None,
    };
    let own = match &create.cert {
        Some(cert) => Some((cert.path.clone(), cert.key_path.clone())),
        None => None,
    };
    match own {
        Some((path, key_path)) => {
            conf.server.server_cert.server_cert_store_path = Some(path.clone());
            conf.server.server_cert.server_key_path = Some(key_path.clone());
            let hash = match cert_hash(path.as_str(), file) {
                Ok(hash) => hash,
                Err(e) => {
                    return Err(e);
                },
            };
            create.cert = Some(CreateServiceCert { hash, path, key_path });
        },
        None => {
            let path = match &conf.server.server_cert.server_cert_store_path {
                Some(path) => path.clone(),
                None => {
                    return Ok(conf);
                },
            };
            let key_path = match &conf.server.server_cert.server_key_path {
                Some(path) => path.clone(),
                None => {
                    return Ok(conf);
                },
            };
            let hash = match cert_hash(path.as_str(), file) {
                Ok(hash) => hash,
                Err(e) => {
                    return Err(e);
                },
            };
            create.cert = Some(CreateServiceCert { hash, path, key_path });
        },
    }
    Ok(conf)
}

/// The path of the certificate file to read before [`conf_update`].
pub fn cert_path(default: &ProxyConf, create: &CreateService) -> (r: Option<String>)
    ensures
        opt_view(r) == cert_source(default.server.server_cert, *create),
{
    match &create.cert {
        Some(c) => Some(c.path.clone()),
        None => match (
            &default.server.server_cert.server_cert_store_path,
            &default.server.server_cert.server_key_path,
        ) {
            (Some(p), Some(_)) => Some(p.clone()),
            _ => None,
        },
    }
}

} // verus!
