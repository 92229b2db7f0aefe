//! The proxy manager: the running instances, each under the set of
//! addresses that it is bound to.

use vstd::prelude::*;
use vstd::utf8::encode_utf8;
use crate::addr::{is_union, lemma_sorted_unique, strictly_sorted, Addresses, SocketAddress};
use crate::codec::codec_limit;
use crate::conf::ProxyConf;
use crate::error::{Error, ProxyError, ServiceError};
use crate::handler::{authorized_outcome, decided, Authorized, ForwardDecision, ForwardRequest};
use crate::model::{binding, CreateService, Service, Timestamp};
use crate::proxy::{conf_update, conf_updated, Proxy};
use crate::service::ProxyUser;

verus! {

/// The running proxy instances, by binding.
pub struct ProxyManager {
    default_conf: ProxyConf,
    keys: Vec<Addresses>,
    proxies: Vec<Proxy>,
}

/// What the manager decides for a new service: to put it on an instance that
/// is there, or to start a new instance.
pub enum Spawn {
    /// The instance at this position is bound to the service's addresses.
    Existing(usize),
    /// No instance is bound to the service's addresses: this one is to be
    /// started and, once its listeners are up, inserted.
    New(Proxy),
}

/// The binding key of a service descriptor or of a configuration: the union
/// of the two bindings, in order.
pub open spec fn is_key(key: Seq<SocketAddress>, https: Option<Addresses>, http: Option<Addresses>) -> bool {
    strictly_sorted(key) && is_union(key, binding(https), binding(http))
}

impl ProxyManager {
    /// The configuration that new instances start from.
    pub closed spec fn default(self) -> ProxyConf {
        self.default_conf
    }

    /// The bindings of the instances, in the order in which they were inserted.
    pub closed spec fn keys(self) -> Seq<Seq<SocketAddress>> {
        Seq::new(self.keys@.len(), |i: int| self.keys@[i]@)
    }

    /// The instances, each at the position of its binding.
    pub closed spec fn instances(self) -> Seq<Proxy> {
        self.proxies@
    }

    /// Well-formedness: there is one binding for each instance, no binding
    /// occurs twice, and each instance is well formed and bound to the
    /// addresses that it is kept under.
    pub closed spec fn wf(self) -> bool {
        &&& self.keys@.len() == self.proxies@.len()
        &&& self.keys().no_duplicates()
        &&& forall|i: int|
            0 <= i < self.proxies@.len() ==> (#[trigger] self.proxies@[i]).wf()
                && self.proxies@[i].bound_to(self.keys()[i])
    }

    /// What holds of the instances of every manager.
    pub proof fn lemma_shape(self)
        requires
            self.wf(),
        ensures
            self.keys().len() == self.instances().len(),
            self.keys().no_duplicates(),
            forall|i: int|
                0 <= i < self.instances().len() ==> (#[trigger] self.instances()[i]).wf()
                    && self.instances()[i].bound_to(self.keys()[i]),
    {
    }

    /// Every instance is kept under its own binding: the addresses that the
    /// instance's configuration gives are the key of the instance.
    pub proof fn lemma_bound_to_key(self, i: int, addresses: Seq<SocketAddress>)
        requires
            self.wf(),
            0 <= i < self.instances().len(),
            self.instances()[i].bound_to(addresses),
        ensures
            addresses == self.keys()[i],
    {
        let p = self.instances()[i];
        assert(p.bound_to(self.keys()[i]));
        lemma_union_unique(
            addresses,
            self.keys()[i],
            binding(p.conf.server.bind_https),
            binding(p.conf.server.bind_http),
        );
    }

    /// A manager without instances.
    pub fn new(conf: ProxyConf) -> (m: Self)
        ensures
            m.wf(),
            m.default() == conf,
            m.instances() == Seq::<Proxy>::empty(),
            m.keys() == Seq::<Seq<SocketAddress>>::empty(),
    {
        let m = ProxyManager { default_conf: conf, keys: Vec::new(), proxies: Vec::new() };
        assert(m.keys() =~= Seq::<Seq<SocketAddress>>::empty());
        m
    }

    /// The configuration that new instances start from.
    pub fn default_conf(&self) -> (c: &ProxyConf)
        ensures
            *c == self.default(),
    {
        &self.default_conf
    }

    /// The number of instances.
    pub fn len(&self) -> (n: usize)
        requires
            self.wf(),
        ensures
            n == self.instances().len(),
    {
        self.proxies.len()
    }

    /// The instance at position `i`.
    pub fn proxy_at(&self, i: usize) -> (p: &Proxy)
        requires
            self.wf(),
            i < self.instances().len(),
        ensures
            *p == self.instances()[i as int],
            p.wf(),
    {
        &self.proxies[i]
    }

    /// The binding of the instance at position `i`.
    pub fn key_at(&self, i: usize) -> (k: &Addresses)
        requires
            self.wf(),
            i < self.instances().len(),
        ensures
            k@ == self.keys()[i as int],
    {
        &self.keys[i]
    }

    /// The position of the instance bound to `addrs`.
    pub fn find(&self, addrs: &Addresses) -> (r: Option<usize>)
        requires
            self.wf(),
        ensures
            match r {
                Some(i) => i < self.keys().len() && self.keys()[i as int] == addrs@,
                None => !self.keys().contains(addrs@),
            },
    {
        let mut i: usize = 0;
        while i < self.keys.len()
            invariant
                i <= self.keys.len(),
                forall|j: int| 0 <= j < i ==> self.keys()[j] != addrs@,
            decreases self.keys.len() - i,
        {
            if self.keys[i].same(addrs) {
                return Some(i);
            }
            i += 1;
        }
        None
    }

    /// Whether `create` and `r` are what the manager decides for a service
    /// given as `given`: where an instance is bound to the service's
    /// addresses, that instance and nothing else; otherwise a new instance
    /// with the effective configuration, not yet running, or the error that
    /// merging the defaults brought.
    pub open spec fn decided(
        self,
        given: CreateService,
        file: Result<Vec<u8>, String>,
        create: CreateService,
        r: Result<Spawn, Error>,
    ) -> bool {
        if exists|i: int|
            0 <= i < self.keys().len() && is_key(
                #[trigger] self.keys()[i],
                given.bind_https,
                given.bind_http,
            ) {
            &&& r matches Ok(Spawn::Existing(i)) && i < self.keys().len() && is_key(
                self.keys()[i as int],
                given.bind_https,
                given.bind_http,
            )
            &&& create == given
        } else {
            match r {
                Ok(Spawn::New(p)) => {
                    &&& conf_updated(self.default(), given, file, create, Ok(p.conf))
                    &&& p.wf()
                    &&& !p.running
                    &&& p.state.names() == Map::<Seq<char>, Seq<char>>::empty()
                    &&& p.stats.total_requests() == 0
                },
                Ok(Spawn::Existing(_)) => false,
                Err(Error::Proxy(e)) => conf_updated(self.default(), given, file, create, Err(e)),
                Err(_) => false,
            }
        }
    }

    /// Finds the instance for a new service, or prepares a new one.
    ///
    /// A service whose addresses are those of a running instance goes to that
    /// instance, and no other is started. Otherwise the defaults are merged
    /// into `create` — `file` is what reading the certificate file named by
    /// [`crate::proxy::cert_source`] brought — and a new instance is made,
    /// which the caller starts and then hands to [`ProxyManager::insert`].
    pub fn get_or_spawn(&self, create: &mut CreateService, file: &Result<Vec<u8>, String>) -> (r:
        Result<Spawn, Error>)
        requires
            self.wf(),
        ensures
            self.decided(*old(create), *file, *final(create), r),
    {
        let addrs = create.addresses();
        match self.find(&addrs) {
            Some(i) => Ok(Spawn::Existing(i)),
            None => {
                proof {
                    let given = *create;
                    if exists|i: int|
                        0 <= i < self.keys().len() && is_key(
                            #[trigger] self.keys()[i],
                            given.bind_https,
                            given.bind_http,
                        ) {
                        let i = choose|i: int|
                            0 <= i < self.keys().len() && is_key(
                                #[trigger] self.keys()[i],
                                given.bind_https,
                                given.bind_http,
                            );
                        lemma_union_unique(
                            self.keys()[i],
                            addrs@,
                            binding(given.bind_https),
                            binding(given.bind_http),
                        );
                        assert(self.keys().contains(addrs@));
                    }
                }
                self.spawn(create, file)
            },
        }
    }

    /// Prepares a new instance for `create`: merges the defaults into it and
    /// makes an instance with the effective configuration. An instance that
    /// is already bound to the service's addresses is an error.
    pub fn spawn(&self, create: &mut CreateService, file: &Result<Vec<u8>, String>) -> (r: Result<
        Spawn,
        Error,
    >)
        requires
            self.wf(),
        ensures
            match r {
                Ok(Spawn::New(p)) => {
                    &&& conf_updated(self.default(), *old(create), *file, *final(create), Ok(p.conf))
                    &&& p.wf()
                    &&& !p.running
                    &&& p.state.names() == Map::<Seq<char>, Seq<char>>::empty()
                    &&& p.stats.total_requests() == 0
                    &&& forall|i: int|
                        0 <= i < self.keys().len() ==> !is_key(
                            #[trigger] self.keys()[i],
                            old(create).bind_https,
                            old(create).bind_http,
                        )
                },
                Ok(Spawn::Existing(_)) => false,
                Err(Error::Proxy(ProxyError::AlreadyRunning(addrs))) => {
                    &&& *final(create) == *old(create)
                    &&& self.keys().contains(addrs@)
                    &&& is_key(addrs@, old(create).bind_https, old(create).bind_http)
                },
                Err(Error::Proxy(e)) => {
                    &&& conf_updated(self.default(), *old(create), *file, *final(create), Err(e))
                    &&& forall|i: int|
                        0 <= i < self.keys().len() ==> !is_key(
                            #[trigger] self.keys()[i],
                            old(create).bind_https,
                            old(create).bind_http,
                        )
                },
                Err(_) => false,
            },
    {
        let addrs = create.addresses();
        if self.find(&addrs).is_some() {
            return Err(Error::Proxy(ProxyError::AlreadyRunning(addrs)));
        }
        proof {
            assert forall|i: int| 0 <= i < self.keys().len() implies !is_key(
                #[trigger] self.keys()[i],
                create.bind_https,
                create.bind_http,
            ) by {
                if is_key(self.keys()[i], create.bind_https, create.bind_http) {
                    lemma_union_unique(
                        self.keys()[i],
                        addrs@,
                        binding(create.bind_https),
                        binding(create.bind_http),
                    );
                    assert(self.keys().contains(addrs@));
                }
            }
        }
        match conf_update(&self.default_conf, create, file) {
            Ok(conf) => Ok(Spawn::New(Proxy::new(conf))),
            Err(e) => Err(Error::Proxy(e)),
        }
    }

    /// The position at which `proxy` is kept: that of the instance bound to
    /// the same addresses where there is one, and the next free position
    /// otherwise.
    pub open spec fn place(self, proxy: Proxy) -> int {
        if exists|j: int| 0 <= j < self.keys().len() && proxy.bound_to(#[trigger] self.keys()[j]) {
            choose|j: int| 0 <= j < self.keys().len() && proxy.bound_to(#[trigger] self.keys()[j])
        } else {
            self.keys().len() as int
        }
    }

    /// Lemma: an instance is bound to at most one of the keys.
    pub proof fn lemma_place(self, proxy: Proxy, j: int)
        requires
            self.wf(),
            0 <= j < self.keys().len(),
            proxy.bound_to(self.keys()[j]),
        ensures
            self.place(proxy) == j,
    {
        let k = self.place(proxy);
        lemma_union_unique(
            self.keys()[j],
            self.keys()[k],
            binding(proxy.conf.server.bind_https),
            binding(proxy.conf.server.bind_http),
        );
    }

    /// Says at which position `proxy` will be kept, before it is.
    pub fn position_for(&self, proxy: &Proxy) -> (i: usize)
        requires
            self.wf(),
        ensures
            i == self.place(*proxy),
            i <= self.instances().len(),
    {
        let key = proxy.conf.server.addresses();
        match self.find(&key) {
            Some(i) => {
                proof {
                    self.lemma_place(*proxy, i as int);
                }
                i
            },
            None => {
                proof {
                    if exists|j: int|
                        0 <= j < self.keys().len() && proxy.bound_to(#[trigger] self.keys()[j]) {
                        let j = choose|j: int|
                            0 <= j < self.keys().len() && proxy.bound_to(
                                #[trigger] self.keys()[j],
                            );
                        lemma_union_unique(
                            self.keys()[j],
                            key@,
                            binding(proxy.conf.server.bind_https),
                            binding(proxy.conf.server.bind_http),
                        );
                        assert(self.keys().contains(key@));
                    }
                }
                self.proxies.len()
            },
        }
    }

    /// Keeps `proxy` under its binding and says at which position. An
    /// instance that was kept under the same binding is replaced.
    pub fn insert(&mut self, proxy: Proxy) -> (i: usize)
        requires
            old(self).wf(),
            proxy.wf(),
        ensures
            final(self).wf(),
            final(self).default() == old(self).default(),
            i == old(self).place(proxy),
            i < final(self).instances().len(),
            final(self).instances()[i as int] == proxy,
            proxy.bound_to(final(self).keys()[i as int]),
            if exists|j: int| 0 <= j < old(self).keys().len() && proxy.bound_to(#[trigger] old(self).keys()[j]) {
                &&& final(self).keys() == old(self).keys()
                &&& final(self).instances() == old(self).instances().update(i as int, proxy)
            } else {
                &&& i == old(self).instances().len()
                &&& final(self).keys() == old(self).keys().push(final(self).keys()[i as int])
                &&& final(self).instances() == old(self).instances().push(proxy)
            },
    {
        let key = proxy.conf.server.addresses();
        let ghost before = *self;
        match self.find(&key) {
            Some(i) => {
                proof {
                    before.lemma_place(proxy, i as int);
                }
                self.proxies.set(i, proxy);
                proof {
                    assert(self.keys() == before.keys());
                    assert(before.keys()[i as int] == key@);
                    assert forall|j: int| 0 <= j < self.proxies@.len() implies (
                    #[trigger] self.proxies@[j]).wf() && self.proxies@[j].bound_to(
                        self.keys()[j],
                    ) by {
                        if j != i {
                            assert(before.proxies@[j].wf());
                        }
                    }
                    assert(proxy.bound_to(before.keys()[i as int]));
                }
                i
            },
            None => {
                proof {
                    if exists|j: int|
                        0 <= j < before.keys().len() && proxy.bound_to(#[trigger] before.keys()[j]) {
                        let j = choose|j: int|
                            0 <= j < before.keys().len() && proxy.bound_to(
                                #[trigger] before.keys()[j],
                            );
                        lemma_union_unique(
                            before.keys()[j],
                            key@,
                            binding(proxy.conf.server.bind_https),
                            binding(proxy.conf.server.bind_http),
                        );
                        assert(before.keys().contains(key@));
                    }
                }
                self.keys.push(key);
                self.proxies.push(proxy);
                proof {
                    assert(self.keys() =~= before.keys().push(key@));
                    assert forall|j: int| 0 <= j < self.proxies@.len() implies (
                    #[trigger] self.proxies@[j]).wf() && self.proxies@[j].bound_to(
                        self.keys()[j],
                    ) by {
                        if j < before.proxies@.len() {
                            assert(before.proxies@[j].wf());
                        }
                    }
                }
                self.proxies.len() - 1
            },
        }
    }

    /// Takes in what came of binding the listeners of a new instance. An
    /// instance whose listeners are bound is kept, as running, under its
    /// binding; one whose listeners could not be bound is not kept, and the
    /// error is handed on with the manager as it was.
    pub fn bound(&mut self, proxy: Proxy, outcome: Result<(), Error>) -> (r: Result<usize, Error>)
        requires
            old(self).wf(),
            proxy.wf(),
        ensures
            final(self).wf(),
            final(self).default() == old(self).default(),
            match outcome {
                Ok(_) => {
                    let kept = Proxy { running: true, ..proxy };
                    &&& r matches Ok(i) && i == old(self).place(proxy) && i < final(
                        self
                    ).instances().len() && final(self).instances()[i as int] == kept
                        && kept.bound_to(final(self).keys()[i as int]) && if exists|j: int|
                        0 <= j < old(self).keys().len() && kept.bound_to(
                            #[trigger] old(self).keys()[j],
                        ) {
                        &&& final(self).keys() == old(self).keys()
                        &&& final(self).instances() == old(self).instances().update(i as int, kept)
                    } else {
                        &&& i == old(self).instances().len()
                        &&& final(self).keys() == old(self).keys().push(
                            final(self).keys()[i as int],
                        )
                        &&& final(self).instances() == old(self).instances().push(kept)
                    }
                },
                Err(e) => r == Err::<usize, Error>(e) && *final(self) == *old(self),
            },
    {
        match outcome {
            Ok(_) => {
                let ghost given = proxy;
                let mut proxy = proxy;
                proxy.started();
                proof {
                    if exists|j: int|
                        0 <= j < self.keys().len() && given.bound_to(#[trigger] self.keys()[j]) {
                        let j = choose|j: int|
                            0 <= j < self.keys().len() && given.bound_to(#[trigger] self.keys()[j]);
                        self.lemma_place(given, j);
                        self.lemma_place(proxy, j);
                    } else {
                        assert forall|j: int| 0 <= j < self.keys().len() implies !proxy.bound_to(
                            #[trigger] self.keys()[j],
                        ) by {
                            assert(!given.bound_to(self.keys()[j]));
                        }
                    }
                }
                Ok(self.insert(proxy))
            },
            Err(e) => Err(e),
        }
    }

    /// The position of the first instance that has a service called
    /// `service_name`, none when no instance has one.
    pub open spec fn owner(self, service_name: Seq<char>) -> Option<int> {
        if exists|i: int|
            0 <= i < self.instances().len() && (
            #[trigger] self.instances()[i]).state.names().contains_key(service_name) {
            Some(
                choose|i: int|
                    0 <= i < self.instances().len() && (
                    #[trigger] self.instances()[i]).state.names().contains_key(service_name)
                        && forall|j: int|
                        0 <= j < i ==> !(#[trigger] self.instances()[j]).state.names().contains_key(
                            service_name,
                        ),
            )
        } else {
            None
        }
    }

    /// Lemma: the first position at which something holds is the owner.
    pub proof fn lemma_owner(self, service_name: Seq<char>, i: int)
        requires
            0 <= i < self.instances().len(),
            self.instances()[i].state.names().contains_key(service_name),
            forall|j: int|
                0 <= j < i ==> !(#[trigger] self.instances()[j]).state.names().contains_key(
                    service_name,
                ),
        ensures
            self.owner(service_name) == Some(i),
    {
        let k = choose|k: int|
            0 <= k < self.instances().len() && (
            #[trigger] self.instances()[k]).state.names().contains_key(service_name) && forall|
                j: int,
            |
                0 <= j < k ==> !(#[trigger] self.instances()[j]).state.names().contains_key(
                    service_name,
                );
        assert(k == i) by {
            if k < i {
                assert(!self.instances()[k].state.names().contains_key(service_name));
            } else if i < k {
                assert(!self.instances()[i].state.names().contains_key(service_name));
            }
        }
    }

    /// The position of the instance that has the service called
    /// `service_name`: the first such instance.
    pub fn proxy(&self, service_name: &str) -> (r: Result<usize, Error>)
        requires
            self.wf(),
        ensures
            match r {
                Ok(i) => self.owner(service_name@) == Some(i as int) && i < self.instances().len()
                    && self.instances()[i as int].state.names().contains_key(service_name@),
                Err(Error::Service(ServiceError::NotFound(n))) => self.owner(service_name@) is None
                    && n@ == service_name@,
                Err(_) => false,
            },
    {
        let mut i: usize = 0;
        while i < self.proxies.len()
            invariant
                i <= self.proxies.len(),
                self.wf(),
                forall|j: int|
                    0 <= j < i ==> !(#[trigger] self.instances()[j]).state.names().contains_key(
                        service_name@,
                    ),
            decreases self.proxies.len() - i,
        {
            if self.proxies[i].contains(service_name) {
                proof {
                    self.lemma_owner(service_name@, i as int);
                }
                return Ok(i);
            }
            i += 1;
        }
        Err(Error::Service(ServiceError::NotFound(service_name.to_owned())))
    }

    /// Whether `after` is `before` with the instance at position `i` replaced
    /// by an instance with the same configuration.
    pub open spec fn changed_at(before: ProxyManager, after: ProxyManager, i: int) -> bool {
        &&& after.default() == before.default()
        &&& after.keys() == before.keys()
        &&& 0 <= i < before.instances().len()
        &&& after.instances() == before.instances().update(i, after.instances()[i])
        &&& after.instances()[i].conf == before.instances()[i].conf
    }

    /// Adds a service, created at `now`, to the instance at position `i`.
    pub fn add_service_at(&mut self, i: usize, create: CreateService, now: Timestamp) -> (r: Result<
        Service,
        Error,
    >)
        requires
            old(self).wf(),
            i < old(self).instances().len(),
        ensures
            final(self).wf(),
            ProxyManager::changed_at(*old(self), *final(self), i as int),
            Proxy::added(old(self).instances()[i as int], final(self).instances()[i as int], create, now, r),
    {
        let ghost before = *self;
        let proxy = &mut self.proxies[i];
        let r = proxy.add_at(create, now);
        proof {
            self.lemma_kept(before, i as int);
        }
        r
    }

    /// Adds a service, created now, to the instance at position `i`.
    pub fn add_service(&mut self, i: usize, create: CreateService) -> (r: Result<Service, Error>)
        requires
            old(self).wf(),
            i < old(self).instances().len(),
        ensures
            final(self).wf(),
            ProxyManager::changed_at(*old(self), *final(self), i as int),
            exists|now: Timestamp|
                Proxy::added(
                    old(self).instances()[i as int],
                    final(self).instances()[i as int],
                    create,
                    now,
                    r,
                ),
    {
        let now = Timestamp::now();
        let r = self.add_service_at(i, create, now);
        assert(Proxy::added(old(self).instances()[i as int], self.instances()[i as int], create, now, r));
        r
    }

    /// Removes the service called `service_name` from the instance at
    /// position `i`.
    pub fn remove_service(&mut self, i: usize, service_name: &str) -> (r: Result<(), Error>)
        requires
            old(self).wf(),
            i < old(self).instances().len(),
        ensures
            final(self).wf(),
            ProxyManager::changed_at(*old(self), *final(self), i as int),
            Proxy::removed(old(self).instances()[i as int], final(self).instances()[i as int], service_name@, r),
    {
        let ghost before = *self;
        let proxy = &mut self.proxies[i];
        let r = proxy.remove(service_name);
        proof {
            self.lemma_kept(before, i as int);
        }
        r
    }

    /// Adds a user, created at `now`, to a service of the instance at
    /// position `i`.
    pub fn add_user_at(
        &mut self,
        i: usize,
        service_name: &str,
        username: &str,
        password: &str,
        now: Timestamp,
    ) -> (r: Result<ProxyUser, Error>)
        requires
            old(self).wf(),
            i < old(self).instances().len(),
            encode_utf8(username@ + seq![':'] + password@).len() <= codec_limit(),
        ensures
            final(self).wf(),
            ProxyManager::changed_at(*old(self), *final(self), i as int),
            Proxy::user_added(
                old(self).instances()[i as int],
                final(self).instances()[i as int],
                service_name@,
                username@,
                password@,
                now,
                r,
            ),
    {
        let ghost before = *self;
        let proxy = &mut self.proxies[i];
        let r = proxy.add_user_at(service_name, username, password, now);
        proof {
            self.lemma_kept(before, i as int);
        }
        r
    }

    /// Adds a user, created now, to a service of the instance at position `i`.
    pub fn add_user(&mut self, i: usize, service_name: &str, username: &str, password: &str) -> (r:
        Result<ProxyUser, Error>)
        requires
            old(self).wf(),
            i < old(self).instances().len(),
            encode_utf8(username@ + seq![':'] + password@).len() <= codec_limit(),
        ensures
            final(self).wf(),
            ProxyManager::changed_at(*old(self), *final(self), i as int),
            exists|now: Timestamp|
                Proxy::user_added(
                    old(self).instances()[i as int],
                    final(self).instances()[i as int],
                    service_name@,
                    username@,
                    password@,
                    now,
                    r,
                ),
    {
        let now = Timestamp::now();
        let r = self.add_user_at(i, service_name, username, password, now);
        assert(Proxy::user_added(
            old(self).instances()[i as int],
            self.instances()[i as int],
            service_name@,
            username@,
            password@,
            now,
            r,
        ));
        r
    }

    /// Removes a user from a service of the instance at position `i`.
    pub fn remove_user(&mut self, i: usize, service_name: &str, username: &str) -> (r: Result<
        (),
        Error,
    >)
        requires
            old(self).wf(),
            i < old(self).instances().len(),
        ensures
            final(self).wf(),
            ProxyManager::changed_at(*old(self), *final(self), i as int),
            Proxy::user_removed(
                old(self).instances()[i as int],
                final(self).instances()[i as int],
                service_name@,
                username@,
                r,
            ),
    {
        let ghost before = *self;
        let proxy = &mut self.proxies[i];
        let r = proxy.remove_user(service_name, username);
        proof {
            self.lemma_kept(before, i as int);
        }
        r
    }

    /// Decides what becomes of a request that reached a listener of the
    /// instance at position `i` from `peer_ip`, and counts it.
    pub fn forward(&mut self, i: usize, req: &ForwardRequest, peer_ip: &str) -> (r: ForwardDecision)
        requires
            old(self).wf(),
            i < old(self).instances().len(),
            crate::handler::passes(old(self).instances()[i as int].state, *req) ==> old(
                self,
            ).instances()[i as int].stats.total_requests() < usize::MAX,
            req.authorization matches Some(a) ==> encode_utf8(a@).len() <= codec_limit(),
        ensures
            final(self).wf(),
            ProxyManager::changed_at(*old(self), *final(self), i as int),
            Proxy::forwarded(old(self).instances()[i as int], final(self).instances()[i as int], *req, peer_ip@, r),
    {
        let ghost before = *self;
        let proxy = &mut self.proxies[i];
        let r = proxy.forward(req, peer_ip);
        proof {
            self.lemma_kept(before, i as int);
        }
        r
    }

    /// Counts a request that the instance at position `i` has authorized and
    /// says where it is sent.
    pub fn forward_authorized(&mut self, i: usize, authorized: &Authorized, req: &ForwardRequest, peer_ip: &str) -> (r:
        ForwardDecision)
        requires
            old(self).wf(),
            i < old(self).instances().len(),
            old(self).instances()[i as int].stats.total_requests() < usize::MAX,
            encode_utf8(authorized.token@).len() <= codec_limit(),
        ensures
            final(self).wf(),
            ProxyManager::changed_at(*old(self), *final(self), i as int),
            final(self).instances()[i as int].state == old(self).instances()[i as int].state,
            final(self).instances()[i as int].running == old(self).instances()[i as int].running,
            decided(
                authorized_outcome(req.uri@, *authorized),
                *req,
                peer_ip@,
                old(self).instances()[i as int].stats,
                final(self).instances()[i as int].stats,
                r,
            ),
    {
        let ghost before = *self;
        let proxy = &mut self.proxies[i];
        let r = proxy.forward_authorized(authorized, req, peer_ip);
        proof {
            self.lemma_kept(before, i as int);
        }
        r
    }

    /// Records that the listeners of the instance at position `i` are up.
    pub fn started(&mut self, i: usize)
        requires
            old(self).wf(),
            i < old(self).instances().len(),
        ensures
            final(self).wf(),
            ProxyManager::changed_at(*old(self), *final(self), i as int),
            final(self).instances()[i as int].running,
            final(self).instances()[i as int].state == old(self).instances()[i as int].state,
            final(self).instances()[i as int].stats == old(self).instances()[i as int].stats,
    {
        let ghost before = *self;
        let proxy = &mut self.proxies[i];
        proxy.started();
        proof {
            self.lemma_kept(before, i as int);
        }
    }

    /// Stops every instance and forgets them all. The result says, instance
    /// by instance, whether its listeners were up and are to be told to shut
    /// down.
    pub fn stop(&mut self) -> (signals: Vec<bool>)
        requires
            old(self).wf(),
        ensures
            final(self).wf(),
            final(self).default() == old(self).default(),
            final(self).instances() == Seq::<Proxy>::empty(),
            final(self).keys() == Seq::<Seq<SocketAddress>>::empty(),
            signals@.len() == old(self).instances().len(),
            forall|i: int|
                0 <= i < signals@.len() ==> signals@[i] == (#[trigger] old(self).instances()[i]).running,
    {
        let mut signals: Vec<bool> = Vec::new();
        let mut i: usize = 0;
        while i < self.proxies.len()
            invariant
                i <= self.proxies.len(),
                self.proxies@ == old(self).proxies@,
                signals@.len() == i,
                forall|j: int|
                    0 <= j < i ==> signals@[j] == (#[trigger] old(self).instances()[j]).running,
            decreases self.proxies.len() - i,
        {
            signals.push(self.proxies[i].running);
            i += 1;
        }
        self.keys = Vec::new();
        self.proxies = Vec::new();
        assert(self.keys() =~= Seq::<Seq<SocketAddress>>::empty());
        signals
    }

    /// A manager that differs from a well-formed one in one instance, which
    /// is well formed and keeps its configuration, is well formed.
    proof fn lemma_kept(self, before: ProxyManager, i: int)
        requires
            before.wf(),
            0 <= i < before.proxies@.len(),
            self.default_conf == before.default_conf,
            self.keys == before.keys,
            self.proxies@ == before.proxies@.update(i, self.proxies@[i]),
            self.proxies@[i].wf(),
            self.proxies@[i].conf == before.proxies@[i].conf,
        ensures
            self.wf(),
            ProxyManager::changed_at(before, self, i),
    {
        assert forall|j: int| 0 <= j < self.proxies@.len() implies (#[trigger] self.proxies@[j]).wf()
            && self.proxies@[j].bound_to(self.keys()[j]) by {
            assert(before.proxies@[j].wf() && before.proxies@[j].bound_to(before.keys()[j]));
        }
    }
}

/// Two ordered collections that are the union of the same two collections
/// are equal.
pub proof fn lemma_union_unique(
    first: Seq<SocketAddress>,
    second: Seq<SocketAddress>,
    a: Seq<SocketAddress>,
    b: Seq<SocketAddress>,
)
    requires
        strictly_sorted(first),
        strictly_sorted(second),
        is_union(first, a, b),
        is_union(second, a, b),
    ensures
        first == second,
{
    lemma_sorted_unique(first, second);
}

} // verus!
