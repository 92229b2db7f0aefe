//! The services of one proxy instance, indexed by endpoint and by name.

use vstd::prelude::*;
use vstd::utf8::encode_utf8;
use crate::codec::codec_limit;
use crate::error::{Error, ServiceError, UserError};
use crate::model::{CreateService, Service, Timestamp};
use crate::service::{credentials_of, ProxyService, ProxyUser};
use crate::strmap::StringMap;
use crate::text::{concat2, starts_with, trim, trimmed};

verus! {

/// The endpoint of a service created with the source path `from`: the path
/// without surrounding whitespace, with a `/` put in front where it does not
/// begin with one. An empty path gives `/`.
pub open spec fn endpoint_of(from: Seq<char>) -> Seq<char> {
    let t = trimmed(from);
    if t.len() > 0 && t[0] == '/' {
        t
    } else {
        seq!['/'] + t
    }
}

/// Whether two endpoints clash: one is a prefix of the other, or they are equal.
pub open spec fn clash(a: Seq<char>, b: Seq<char>) -> bool {
    a.is_prefix_of(b) || b.is_prefix_of(a)
}

/// Computes the endpoint of a source path.
pub fn normalize_endpoint(from: &str) -> (r: String)
    ensures
        r@ == endpoint_of(from@),
{
    let t = trim(from);
    if t.unicode_len() > 0 && t.get_char(0) == '/' {
        t.to_owned()
    } else {
        proof {
            reveal_strlit("/");
            assert("/"@ =~= seq!['/']);
        }
        concat2("/", t)
    }
}

/// Whether `after` and `r` are what adding a service created with `create`
/// at `now` makes of `before`.
pub open spec fn service_added(
    before: ProxyState,
    after: ProxyState,
    create: CreateService,
    now: Timestamp,
    r: Result<Service, ServiceError>,
) -> bool {
    let endpoint = endpoint_of(create.from@);
    match r {
        Ok(service) => {
            &&& !before.names().contains_key(create.name@)
            &&& !before.clashes(endpoint)
            &&& after.names() == before.names().insert(create.name@, endpoint)
            &&& after.endpoints() == before.endpoints().push(endpoint)
            &&& after.services().contains_key(endpoint)
            &&& after.services() == before.services().insert(endpoint, after.services()[endpoint])
            &&& after.services()[endpoint].created() == now
            &&& after.services()[endpoint].descriptor().from@ == endpoint
            &&& after.services()[endpoint].descriptor() == (CreateService {
                from: after.services()[endpoint].descriptor().from,
                ..create
            })
            &&& after.services()[endpoint].users() == Map::<Seq<char>, ProxyUser>::empty()
            &&& after.services()[endpoint].access() == Set::<Seq<char>>::empty()
            &&& service.created_at == now
            &&& after.services()[endpoint].descriptor().same(service.inner)
        },
        Err(e) => {
            &&& before.names().contains_key(create.name@) || before.clashes(endpoint)
            &&& e matches ServiceError::AlreadyExists { name, endpoint: refused } && name@
                == create.name@ && refused@ == endpoint
            &&& after == before
        },
    }
}

/// Whether `after` and `r` are what removing the service called
/// `service_name` makes of `before`.
pub open spec fn service_removed(
    before: ProxyState,
    after: ProxyState,
    service_name: Seq<char>,
    r: Result<(), ServiceError>,
) -> bool {
    match r {
        Ok(_) => {
            &&& before.names().contains_key(service_name)
            &&& after.names() == before.names().remove(service_name)
            &&& after.services() == before.services().remove(before.names()[service_name])
        },
        Err(e) => {
            &&& !before.names().contains_key(service_name)
            &&& e matches ServiceError::NotFound(n) && n@ == service_name
            &&& after == before
        },
    }
}

/// Whether `after` and `r` are what adding a user, created at `now`, to the
/// service called `service_name` makes of `before`.
pub open spec fn user_added(
    before: ProxyState,
    after: ProxyState,
    service_name: Seq<char>,
    username: Seq<char>,
    password: Seq<char>,
    now: Timestamp,
    r: Result<ProxyUser, Error>,
) -> bool {
    &&& after.names() == before.names()
    &&& after.endpoints() == before.endpoints()
    &&& match r {
        Ok(u) => {
            let e = before.names()[service_name];
            &&& before.names().contains_key(service_name)
            &&& !before.services()[e].users().contains_key(username)
            &&& u.username@ == username
            &&& u.created_at == now
            &&& u.token() == credentials_of(username, password)
            &&& after.services() == before.services().insert(e, after.services()[e])
            &&& after.services()[e].users() == before.services()[e].users().insert(username, u)
            &&& after.services()[e].access() == before.services()[e].access().insert(u.token())
            &&& after.services()[e].descriptor() == before.services()[e].descriptor()
            &&& after.services()[e].created() == before.services()[e].created()
        },
        Err(Error::Service(e)) => {
            &&& !before.names().contains_key(service_name)
            &&& e matches ServiceError::NotFound(n) && n@ == service_name
            &&& after.services() == before.services()
        },
        Err(Error::User(e)) => {
            &&& before.names().contains_key(service_name)
            &&& before.services()[before.names()[service_name]].users().contains_key(username)
            &&& e matches UserError::AlreadyExists(n) && n@ == username
            &&& after.services() == before.services()
        },
        Err(_) => false,
    }
}

/// Whether `after` and `r` are what removing a user from the service called
/// `service_name` makes of `before`.
pub open spec fn user_removed(
    before: ProxyState,
    after: ProxyState,
    service_name: Seq<char>,
    username: Seq<char>,
    r: Result<(), Error>,
) -> bool {
    &&& after.names() == before.names()
    &&& after.endpoints() == before.endpoints()
    &&& match r {
        Ok(_) => {
            let e = before.names()[service_name];
            &&& before.names().contains_key(service_name)
            &&& before.services()[e].users().contains_key(username)
            &&& after.services() == before.services().insert(e, after.services()[e])
            &&& after.services()[e].users() == before.services()[e].users().remove(username)
            &&& after.services()[e].access() == before.services()[e].access().remove(
                before.services()[e].users()[username].token(),
            )
            &&& after.services()[e].descriptor() == before.services()[e].descriptor()
            &&& after.services()[e].created() == before.services()[e].created()
        },
        Err(Error::Service(e)) => {
            &&& !before.names().contains_key(service_name)
            &&& e matches ServiceError::NotFound(n) && n@ == service_name
            &&& after.services() == before.services()
        },
        Err(Error::User(e)) => {
            &&& before.names().contains_key(service_name)
            &&& !before.services()[before.names()[service_name]].users().contains_key(username)
            &&& e matches UserError::NotFound(n) && n@ == username
            &&& after.services() == before.services()
        },
        Err(_) => false,
    }
}

/// The services of a proxy instance.
pub struct ProxyState {
    by_endpoint: StringMap<ProxyService>,
    by_name: StringMap<String>,
}

impl ProxyState {
    /// The services, by endpoint.
    pub closed spec fn services(self) -> Map<Seq<char>, ProxyService> {
        self.by_endpoint@
    }

    /// The endpoint of each service, by the service's name.
    pub closed spec fn names(self) -> Map<Seq<char>, Seq<char>> {
        Map::new(|n: Seq<char>| self.by_name@.contains_key(n), |n: Seq<char>| self.by_name@[n]@)
    }

    /// The endpoints, in the order in which their services were added.
    pub closed spec fn endpoints(self) -> Seq<Seq<char>> {
        self.by_endpoint.keys()
    }

    /// The invariants of the two indices: every name leads to an endpoint
    /// that is there; the service at that endpoint has that name, and each
    /// service is listed under its name; no endpoint is a prefix of another;
    /// every endpoint begins with `/` and is the source path of its service.
    pub open spec fn valid(self) -> bool {
        &&& forall|n: Seq<char>| #[trigger]
            self.names().contains_key(n) ==> self.services().contains_key(self.names()[n])
                && self.services()[self.names()[n]].descriptor().name@ == n
        &&& forall|e: Seq<char>| #[trigger]
            self.services().contains_key(e) ==> {
                &&& self.names().contains_key(self.services()[e].descriptor().name@)
                &&& self.names()[self.services()[e].descriptor().name@] == e
                &&& self.services()[e].wf()
                &&& self.services()[e].descriptor().from@ == e
                &&& e.len() > 0 && e[0] == '/'
            }
        &&& forall|a: Seq<char>, b: Seq<char>|
            self.services().contains_key(a) && self.services().contains_key(b)
                && #[trigger] a.is_prefix_of(b) ==> a == b
    }

    /// Well-formedness: the indices are well formed and the invariants hold.
    pub closed spec fn wf(self) -> bool {
        &&& self.by_endpoint.wf()
        &&& self.by_name.wf()
        &&& self.valid()
    }

    /// A well-formed state meets the invariants, and lists each endpoint once.
    pub proof fn lemma_valid(self)
        requires
            self.wf(),
        ensures
            self.valid(),
            self.endpoints().no_duplicates(),
            forall|e: Seq<char>| self.services().contains_key(e) <==> self.endpoints().contains(e),
    {
        self.by_endpoint.lemma_shape();
    }

    /// Every name in the name index leads to an endpoint in the endpoint index.
    pub proof fn lemma_names_lead_to_endpoints(self, name: Seq<char>)
        requires
            self.wf(),
            self.names().contains_key(name),
        ensures
            self.services().contains_key(self.names()[name]),
    {
    }

    /// No endpoint of an instance is a prefix of another endpoint of it.
    pub proof fn lemma_prefix_disjoint(self, first: Seq<char>, second: Seq<char>)
        requires
            self.wf(),
            self.services().contains_key(first),
            self.services().contains_key(second),
            first != second,
        ensures
            !first.is_prefix_of(second),
            !second.is_prefix_of(first),
    {
    }

    /// At most one endpoint is a prefix of a given path, so a request matches
    /// at most one service.
    pub proof fn lemma_match_unique(self, path: Seq<char>, first: Seq<char>, second: Seq<char>)
        requires
            self.wf(),
            self.services().contains_key(first),
            self.services().contains_key(second),
            first.is_prefix_of(path),
            second.is_prefix_of(path),
        ensures
            first == second,
    {
        if first.len() <= second.len() {
            assert(first =~= second.subrange(0, first.len() as int));
            assert(first.is_prefix_of(second));
        } else {
            assert(second =~= first.subrange(0, second.len() as int));
            assert(second.is_prefix_of(first));
        }
    }

    /// A state without services.
    pub fn new() -> (s: Self)
        ensures
            s.wf(),
            s.services() == Map::<Seq<char>, ProxyService>::empty(),
            s.names() == Map::<Seq<char>, Seq<char>>::empty(),
            s.endpoints() == Seq::<Seq<char>>::empty(),
    {
        let s = ProxyState { by_endpoint: StringMap::new(), by_name: StringMap::new() };
        assert(s.names() =~= Map::<Seq<char>, Seq<char>>::empty());
        s
    }

    /// The number of services.
    pub fn len(&self) -> (n: usize)
        requires
            self.wf(),
        ensures
            n == self.endpoints().len(),
    {
        self.by_endpoint.len()
    }

    /// The service at position `i`, in the order of [`ProxyState::endpoints`].
    pub fn service_at(&self, i: usize) -> (s: &ProxyService)
        requires
            self.wf(),
            i < self.endpoints().len(),
        ensures
            self.services().contains_key(self.endpoints()[i as int]),
            *s == self.services()[self.endpoints()[i as int]],
            s.wf(),
    {
        proof {
            self.by_endpoint.lemma_shape();
            self.by_endpoint.lemma_index(i as int);
        }
        self.by_endpoint.value_at(i)
    }

    /// The position of the service called `service_name`.
    fn position(&self, service_name: &str) -> (r: Option<usize>)
        requires
            self.wf(),
        ensures
            match r {
                Some(i) => self.names().contains_key(service_name@) && i < self.endpoints().len()
                    && self.endpoints()[i as int] == self.names()[service_name@],
                None => !self.names().contains_key(service_name@),
            },
    {
        match self.by_name.get(service_name) {
            Some(endpoint) => {
                let r = self.by_endpoint.find(endpoint.as_str());
                assert(self.names().contains_key(service_name@));
                assert(self.services().contains_key(self.names()[service_name@]));
                r
            },
            None => None,
        }
    }

    /// Whether a service is called `service_name`.
    pub fn contains(&self, service_name: &str) -> (r: bool)
        requires
            self.wf(),
        ensures
            r == self.names().contains_key(service_name@),
    {
        self.position(service_name).is_some()
    }

    /// The service called `service_name`.
    pub fn get_service(&self, service_name: &str) -> (r: Result<&ProxyService, ServiceError>)
        requires
            self.wf(),
        ensures
            match r {
                Ok(s) => self.names().contains_key(service_name@) && *s
                    == self.services()[self.names()[service_name@]] && s.wf(),
                Err(e) => {
                    &&& !self.names().contains_key(service_name@)
                    &&& e matches ServiceError::NotFound(n) && n@ == service_name@
                },
            },
    {
        match self.position(service_name) {
            Some(i) => Ok(self.service_at(i)),
            None => Err(ServiceError::NotFound(service_name.to_owned())),
        }
    }

    /// Whether an endpoint of the state clashes with `endpoint`.
    pub open spec fn clashes(self, endpoint: Seq<char>) -> bool {
        exists|e: Seq<char>| #[trigger] self.services().contains_key(e) && clash(e, endpoint)
    }

    /// Tests whether an endpoint of the state clashes with `endpoint`.
    pub fn has_clash(&self, endpoint: &str) -> (r: bool)
        requires
            self.wf(),
        ensures
            r == self.clashes(endpoint@),
    {
        proof {
            self.by_endpoint.lemma_shape();
        }
        let n = self.by_endpoint.len();
        let mut i: usize = 0;
        while i < n
            invariant
                i <= n,
                n == self.by_endpoint.keys().len(),
                self.by_endpoint.wf(),
                forall|j: int| 0 <= j < i ==> !clash(#[trigger] self.by_endpoint.keys()[j], endpoint@),
            decreases n - i,
        {
            let e = self.by_endpoint.key_at(i);
            if starts_with(e, endpoint) || starts_with(endpoint, e) {
                proof {
                    self.by_endpoint.lemma_index(i as int);
                    assert(self.services().contains_key(e@) && clash(e@, endpoint@));
                }
                return true;
            }
            i += 1;
        }
        proof {
            assert forall|e: Seq<char>| #[trigger] self.services().contains_key(e) implies !clash(
                e,
                endpoint@,
            ) by {
                let j = self.by_endpoint.index_of(e);
                assert(self.by_endpoint.keys()[j] == e);
            }
        }
        false
    }

    /// Adds a service created with `create` at `now`. Its endpoint is the
    /// normalised source path, which becomes the service's source path. A
    /// name that is taken and an endpoint that clashes with one that is
    /// there are refused, and nothing changes.
    pub fn add_service_at(&mut self, create: CreateService, now: Timestamp) -> (r: Result<
        Service,
        ServiceError,
    >)
        requires
            old(self).wf(),
        ensures
            final(self).wf(),
            service_added(*old(self), *final(self), create, now, r),
    {
        let name = create.name.clone();
        let endpoint = normalize_endpoint(create.from.as_str());
        if self.by_name.contains_key(name.as_str()) {
            return Err(ServiceError::AlreadyExists { name, endpoint });
        }
        if self.has_clash(endpoint.as_str()) {
            return Err(ServiceError::AlreadyExists { name, endpoint });
        }
        let ghost before = *self;
        let mut stored = create;
        stored.from = endpoint.clone();
        let service = ProxyService::new_at(stored, now);
        let model = service.to_service();
        self.by_name.insert(name, endpoint.clone());
        self.by_endpoint.insert(endpoint, service);
        proof {
            let ep = endpoint_of(create.from@);
            let n = create.name@;
            before.by_endpoint.lemma_shape();
            assert(!before.services().contains_key(ep)) by {
                if before.services().contains_key(ep) {
                    assert(clash(ep, ep));
                }
            }
            assert(self.names() =~= before.names().insert(n, ep));
            assert forall|m: Seq<char>| #[trigger] self.names().contains_key(m) implies
                self.services().contains_key(self.names()[m]) && self.services()[self.names()[m]].descriptor().name@
                == m by {
                if m != n {
                    assert(before.names().contains_key(m));
                    assert(before.names()[m] != ep);
                }
            }
            assert forall|e: Seq<char>| #[trigger] self.services().contains_key(e) implies {
                &&& self.names().contains_key(self.services()[e].descriptor().name@)
                &&& self.names()[self.services()[e].descriptor().name@] == e
                &&& self.services()[e].wf()
                &&& self.services()[e].descriptor().from@ == e
                &&& e.len() > 0 && e[0] == '/'
            } by {
                if e != ep {
                    assert(before.services().contains_key(e));
                    assert(before.names().contains_key(before.services()[e].descriptor().name@));
                }
            }
            assert forall|a: Seq<char>, b: Seq<char>|
                self.services().contains_key(a) && self.services().contains_key(b)
                    && #[trigger] a.is_prefix_of(b) implies a == b by {
                if a == ep && b != ep {
                    assert(before.services().contains_key(b) && clash(b, ep));
                } else if b == ep && a != ep {
                    assert(before.services().contains_key(a) && clash(a, ep));
                }
            }
        }
        Ok(model)
    }

    /// Adds a service created now.
    pub fn add_service(&mut self, create: CreateService) -> (r: Result<Service, ServiceError>)
        requires
            old(self).wf(),
        ensures
            final(self).wf(),
            exists|now: Timestamp| service_added(*old(self), *final(self), create, now, r),
    {
        let now = Timestamp::now();
        let r = self.add_service_at(create, now);
        assert(service_added(*old(self), *self, create, now, r));
        r
    }

    /// Removes the service called `service_name` from both indices.
    pub fn remove_service(&mut self, service_name: &str) -> (r: Result<(), ServiceError>)
        requires
            old(self).wf(),
        ensures
            final(self).wf(),
            service_removed(*old(self), *final(self), service_name@, r),
    {
        let ghost before = *self;
        match self.by_name.remove(service_name) {
            Some(endpoint) => {
                self.by_endpoint.remove(endpoint.as_str());
                proof {
                    let n = service_name@;
                    let ep = endpoint@;
                    assert(before.names().contains_key(n) && before.names()[n] == ep);
                    assert(self.names() =~= before.names().remove(n));
                    assert forall|m: Seq<char>| #[trigger] self.names().contains_key(m) implies
                        self.services().contains_key(self.names()[m])
                        && self.services()[self.names()[m]].descriptor().name@ == m by {
                        assert(before.names().contains_key(m));
                        assert(before.services()[before.names()[m]].descriptor().name@ == m);
                        assert(before.services()[ep].descriptor().name@ == n);
                    }
                    assert forall|e: Seq<char>| #[trigger] self.services().contains_key(e) implies {
                        &&& self.names().contains_key(self.services()[e].descriptor().name@)
                        &&& self.names()[self.services()[e].descriptor().name@] == e
                        &&& self.services()[e].wf()
                        &&& self.services()[e].descriptor().from@ == e
                        &&& e.len() > 0 && e[0] == '/'
                    } by {
                        assert(before.services().contains_key(e));
                        assert(before.names()[before.services()[e].descriptor().name@] == e);
                    }
                }
                Ok(())
            },
            None => {
                proof {
                    assert(self.names() =~= before.names());
                }
                Err(ServiceError::NotFound(service_name.to_owned()))
            },
        }
    }

    /// The service whose endpoint is a prefix of `path`.
    pub fn find_by_path(&self, path: &str) -> (r: Option<&ProxyService>)
        requires
            self.wf(),
        ensures
            match r {
                Some(s) => s.wf() && exists|e: Seq<char>| #[trigger]
                    self.services().contains_key(e) && e.is_prefix_of(path@) && *s
                        == self.services()[e],
                None => forall|e: Seq<char>| #[trigger]
                    self.services().contains_key(e) ==> !e.is_prefix_of(path@),
            },
    {
        proof {
            self.by_endpoint.lemma_shape();
        }
        let n = self.by_endpoint.len();
        let mut i: usize = 0;
        while i < n
            invariant
                i <= n,
                n == self.by_endpoint.keys().len(),
                self.wf(),
                forall|j: int|
                    0 <= j < i ==> !(#[trigger] self.by_endpoint.keys()[j]).is_prefix_of(path@),
            decreases n - i,
        {
            let e = self.by_endpoint.key_at(i);
            if starts_with(path, e) {
                proof {
                    self.by_endpoint.lemma_shape();
                    self.by_endpoint.lemma_index(i as int);
                    assert(self.services().contains_key(e@) && e@.is_prefix_of(path@));
                }
                return Some(self.by_endpoint.value_at(i));
            }
            i += 1;
        }
        proof {
            assert forall|e: Seq<char>| #[trigger] self.services().contains_key(e) implies !e.is_prefix_of(
                path@,
            ) by {
                let j = self.by_endpoint.index_of(e);
                assert(self.by_endpoint.keys()[j] == e);
            }
        }
        None
    }

    /// The descriptors of all services, in the order of the endpoints.
    pub fn list(&self) -> (r: Vec<Service>)
        requires
            self.wf(),
        ensures
            r@.len() == self.endpoints().len(),
            forall|i: int|
                0 <= i < r@.len() ==> self.services().contains_key(#[trigger] self.endpoints()[i])
                    && r@[i].created_at == self.services()[self.endpoints()[i]].created()
                    && self.services()[self.endpoints()[i]].descriptor().same(r@[i].inner),
    {
        let mut r: Vec<Service> = Vec::new();
        let n = self.by_endpoint.len();
        let mut i: usize = 0;
        while i < n
            invariant
                i <= n,
                n == self.by_endpoint.keys().len(),
                self.by_endpoint.wf(),
                r@.len() == i,
                forall|j: int|
                    0 <= j < i ==> self.services().contains_key(#[trigger] self.endpoints()[j])
                        && r@[j].created_at == self.services()[self.endpoints()[j]].created()
                        && self.services()[self.endpoints()[j]].descriptor().same(r@[j].inner),
            decreases n - i,
        {
            proof {
                self.by_endpoint.lemma_shape();
                self.by_endpoint.lemma_index(i as int);
            }
            r.push(self.by_endpoint.value_at(i).to_service());
            i += 1;
        }
        r
    }

    /// Adds a user, created at `now`, to the service called `service_name`.
    pub fn add_user_at(
        &mut self,
        service_name: &str,
        username: &str,
        password: &str,
        now: Timestamp,
    ) -> (r: Result<ProxyUser, Error>)
        requires
            old(self).wf(),
            encode_utf8(username@ + seq![':'] + password@).len() <= codec_limit(),
        ensures
            final(self).wf(),
            user_added(*old(self), *final(self), service_name@, username@, password@, now, r),
    {
        let ghost before = *self;
        match self.position(service_name) {
            Some(i) => {
                proof {
                    before.by_endpoint.lemma_shape();
                    before.by_endpoint.lemma_index(i as int);
                }
                let service = self.by_endpoint.value_at_mut(i);
                let ghost s0 = *service;
                let r = service.add_user_at(username, password, now);
                proof {
                    before.by_endpoint.lemma_updated(self.by_endpoint, i as int);
                    let e = before.endpoints()[i as int];
                    let s1 = self.by_endpoint.values()[i as int];
                    assert(e == before.names()[service_name@]);
                    assert(before.services()[e] == s0);
                    assert(self.services() == before.services().insert(e, s1));
                    assert(self.services()[e] == s1);
                    assert(self.endpoints() == before.endpoints());
                    assert(self.names() =~= before.names());
                    self.lemma_kept(before, e);
                }
                match r {
                    Ok(u) => Ok(u),
                    Err(e) => {
                        proof {
                            self.lemma_same(before, before.endpoints()[i as int]);
                        }
                        Err(Error::User(e))
                    },
                }
            },
            None => Err(Error::Service(ServiceError::NotFound(service_name.to_owned()))),
        }
    }

    /// Adds a user, created now, to the service called `service_name`.
    pub fn add_user(&mut self, service_name: &str, username: &str, password: &str) -> (r: Result<
        ProxyUser,
        Error,
    >)
        requires
            old(self).wf(),
            encode_utf8(username@ + seq![':'] + password@).len() <= codec_limit(),
        ensures
            final(self).wf(),
            exists|now: Timestamp|
                user_added(*old(self), *final(self), service_name@, username@, password@, now, r),
    {
        let now = Timestamp::now();
        let r = self.add_user_at(service_name, username, password, now);
        assert(user_added(*old(self), *self, service_name@, username@, password@, now, r));
        r
    }

    /// Removes a user from the service called `service_name`.
    pub fn remove_user(&mut self, service_name: &str, username: &str) -> (r: Result<(), Error>)
        requires
            old(self).wf(),
        ensures
            final(self).wf(),
            user_removed(*old(self), *final(self), service_name@, username@, r),
    {
        let ghost before = *self;
        match self.position(service_name) {
            Some(i) => {
                proof {
                    before.by_endpoint.lemma_shape();
                    before.by_endpoint.lemma_index(i as int);
                }
                let service = self.by_endpoint.value_at_mut(i);
                let ghost s0 = *service;
                let r = service.remove_user(username);
                proof {
                    before.by_endpoint.lemma_updated(self.by_endpoint, i as int);
                    let e = before.endpoints()[i as int];
                    let s1 = self.by_endpoint.values()[i as int];
                    assert(e == before.names()[service_name@]);
                    assert(before.services()[e] == s0);
                    assert(self.services() == before.services().insert(e, s1));
                    assert(self.services()[e] == s1);
                    assert(self.endpoints() == before.endpoints());
                    assert(self.names() =~= before.names());
                    self.lemma_kept(before, e);
                }
                match r {
                    Ok(()) => Ok(()),
                    Err(e) => {
                        proof {
                            self.lemma_same(before, before.endpoints()[i as int]);
                        }
                        Err(Error::User(e))
                    },
                }
            },
            None => Err(Error::Service(ServiceError::NotFound(service_name.to_owned()))),
        }
    }

    /// A state that differs from a well-formed one in one service, which is
    /// well formed and keeps its descriptor, is well formed.
    proof fn lemma_kept(self, before: ProxyState, e: Seq<char>)
        requires
            before.wf(),
            self.by_endpoint.wf(),
            self.by_name == before.by_name,
            before.services().contains_key(e),
            self.services() == before.services().insert(e, self.services()[e]),
            self.services()[e].wf(),
            self.services()[e].descriptor() == before.services()[e].descriptor(),
        ensures
            self.wf(),
    {
        assert(self.names() =~= before.names());
        assert forall|m: Seq<char>| #[trigger] self.names().contains_key(m) implies
            self.services().contains_key(self.names()[m])
            && self.services()[self.names()[m]].descriptor().name@ == m by {
            assert(before.names().contains_key(m));
        }
        assert forall|x: Seq<char>| #[trigger] self.services().contains_key(x) implies {
            &&& self.names().contains_key(self.services()[x].descriptor().name@)
            &&& self.names()[self.services()[x].descriptor().name@] == x
            &&& self.services()[x].wf()
            &&& self.services()[x].descriptor().from@ == x
            &&& x.len() > 0 && x[0] == '/'
        } by {
            assert(before.services().contains_key(x));
        }
        assert forall|a: Seq<char>, b: Seq<char>|
            self.services().contains_key(a) && self.services().contains_key(b)
                && #[trigger] a.is_prefix_of(b) implies a == b by {
            assert(before.services().contains_key(a) && before.services().contains_key(b));
        }
    }

    /// Putting back the service that was there leaves the services as they were.
    proof fn lemma_same(self, before: ProxyState, e: Seq<char>)
        requires
            before.services().contains_key(e),
            self.services() == before.services().insert(e, self.services()[e]),
        ensures
            self.services()[e] == before.services()[e] ==> self.services() == before.services(),
    {
        if self.services()[e] == before.services()[e] {
            assert(self.services() =~= before.services());
        }
    }
}

/// A service that was added and removed can be added again with the same
/// descriptor, and where the clock has not gone back since, the service is
/// then not older than it was.
pub proof fn lemma_recreated(
    start: ProxyState,
    added: ProxyState,
    removed: ProxyState,
    again: ProxyState,
    create: CreateService,
    first_time: Timestamp,
    second_time: Timestamp,
    first: Service,
    second: Result<Service, ServiceError>,
)
    requires
        start.wf(),
        service_added(start, added, create, first_time, Ok(first)),
        service_removed(added, removed, create.name@, Ok(())),
        service_added(removed, again, create, second_time, second),
        first_time.at_or_before(second_time),
    ensures
        second is Ok,
        first.created_at.at_or_before(second->Ok_0.created_at),
{
    let endpoint = endpoint_of(create.from@);
    start.lemma_valid();
    assert(!start.services().contains_key(endpoint)) by {
        if start.services().contains_key(endpoint) {
            assert(clash(endpoint, endpoint));
        }
    }
    assert(removed.names() =~= start.names());
    assert(removed.services() =~= start.services());
    if removed.clashes(endpoint) {
        let e = choose|e: Seq<char>| #[trigger]
            removed.services().contains_key(e) && clash(e, endpoint);
        assert(start.services().contains_key(e) && clash(e, endpoint));
    }
}

} // verus!
