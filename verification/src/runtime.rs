//! What a provider's runtime does with the management interface: the
//! commands that it accepts, the requests that they stand for, and the
//! bookkeeping around them.

use vstd::prelude::*;
use crate::api::Method;
use crate::client::{ApiCall, ManagementApi};
use crate::model::{binding, AuthMethod, CreateService, Service, UserStats};

verus! {

/// Prefix of the properties published with an offer.
pub const PROPERTY_PREFIX: &'static str = "golem.runtime.http-auth.meta";

/// Name of the counter of requests.
pub const COUNTER_NAME: &'static str = "http-auth.requests";

/// How often the counter is published, in milliseconds.
pub const COUNTER_PUBLISH_INTERVAL_MS: u64 = 2000;

/// How many requests to the management interface are made at a time.
pub const MANAGEMENT_API_MAX_CONCURRENT_REQUESTS: usize = 3;

/// Commands on the users of the service.
#[derive(Clone, Debug, PartialEq, Eq)]
pub enum UserCommand {
    Add { username: String, password: String, auth: AuthMethod },
    Remove { username: String, auth: AuthMethod },
    List,
    Stats { username: String },
}

/// Commands on the service itself.
#[derive(Clone, Copy, Debug, PartialEq, Eq, Structural)]
pub enum ServiceCommand {
    Info,
}

/// Commands of the runtime.
#[derive(Clone, Debug, PartialEq, Eq)]
pub enum RuntimeCommand {
    User(UserCommand),
    Service(ServiceCommand),
}

impl UserCommand {
    /// Whether `call` is the request that the command stands for: adding and
    /// listing go to the users of the service, removing to the user itself,
    /// and the statistics to the user's statistics by endpoint.
    pub open spec fn stands_for(self, api: ManagementApi, service_name: Seq<char>, call: ApiCall) -> bool {
        match self {
            UserCommand::Add { .. } => call.method == Method::Post && call.url@
                == api.client.url_of("services/"@ + service_name + "/users"@),
            UserCommand::Remove { username, .. } => call.method == Method::Delete && call.url@
                == api.client.url_of(ManagementApi::user_path(service_name, username@)),
            UserCommand::List => call.method == Method::Get && call.url@ == api.client.url_of(
                "services/"@ + service_name + "/users"@,
            ),
            UserCommand::Stats { username } => call.method == Method::Get && call.url@
                == api.client.url_of(
                ManagementApi::user_path(service_name, username@) + "/endpoints/stats"@,
            ),
        }
    }

    /// The request that the command stands for.
    pub fn call(&self, api: &ManagementApi, service_name: &str) -> (r: ApiCall)
        ensures
            self.stands_for(*api, service_name@, r),
    {
        match self {
            UserCommand::Add { .. } => api.create_user(service_name),
            UserCommand::Remove { username, .. } => api.delete_user(service_name, username.as_str()),
            UserCommand::List => api.get_users(service_name),
            UserCommand::Stats { username } => api.get_endpoint_user_stats(
                service_name,
                username.as_str(),
            ),
        }
    }
}

impl ServiceCommand {
    /// The request that the command stands for.
    pub fn call(&self, api: &ManagementApi, service_name: &str) -> (r: ApiCall)
        ensures
            r.method == Method::Get,
            r.url@ == api.client.url_of("services/"@ + service_name@),
    {
        api.get_service(service_name)
    }
}

impl RuntimeCommand {
    /// The request that the command stands for.
    pub fn call(&self, api: &ManagementApi, service_name: &str) -> (r: ApiCall)
        ensures
            match *self {
                RuntimeCommand::Service(_) => r.method == Method::Get && r.url@
                    == api.client.url_of("services/"@ + service_name@),
                RuntimeCommand::User(cmd) => cmd.stands_for(*api, service_name@, r),
            },
    {
        match self {
            RuntimeCommand::User(cmd) => cmd.call(api, service_name),
            RuntimeCommand::Service(cmd) => cmd.call(api, service_name),
        }
    }
}

/// The sum of the requests in the statistics that could be had.
pub open spec fn requests_sum(stats: Seq<Option<UserStats>>) -> nat
    decreases stats.len(),
{
    if stats.len() == 0 {
        0
    } else {
        requests_sum(stats.drop_last()) + match stats.last() {
            Some(s) => s.requests as nat,
            None => 0,
        }
    }
}

/// Counts the requests of all users, given for each user the statistics that
/// the management interface gave, or none where it gave an error.
pub fn count_requests(stats: &Vec<Option<UserStats>>) -> (total: usize)
    requires
        requests_sum(stats@) <= usize::MAX,
    ensures
        total == requests_sum(stats@),
{
    let mut total: usize = 0;
    let mut i: usize = 0;
    assert(stats@.take(0) =~= Seq::<Option<UserStats>>::empty());
    while i < stats.len()
        invariant
            i <= stats.len(),
            total == requests_sum(stats@.take(i as int)),
            requests_sum(stats@) <= usize::MAX,
        decreases stats.len() - i,
    {
        proof {
            let next = stats@.take(i + 1);
            assert(next.drop_last() =~= stats@.take(i as int));
            assert(next.last() == stats@[i as int]);
            lemma_sum_monotone(stats@, i + 1);
        }
        match stats[i] {
            Some(s) => {
                total = total + s.requests;
            },
            None => {},
        }
        i += 1;
    }
    assert(stats@.take(stats.len() as int) =~= stats@);
    total
}

/// Lemma: the sum over a prefix is at most the sum over the whole.
pub proof fn lemma_sum_monotone(stats: Seq<Option<UserStats>>, k: int)
    requires
        0 <= k <= stats.len(),
    ensures
        requests_sum(stats.take(k)) <= requests_sum(stats),
    decreases stats.len(),
{
    if k == stats.len() {
        assert(stats.take(k) =~= stats);
    } else {
        assert(stats.drop_last().take(k) =~= stats.take(k));
        lemma_sum_monotone(stats.drop_last(), k);
    }
}

/// Counts the users that could not be deleted, given for each user whether
/// the management interface deleted it.
pub fn count_failures(deleted: &Vec<bool>) -> (failed: usize)
    ensures
        failed == deleted@.filter(|ok: bool| !ok).len(),
{
    let mut failed: usize = 0;
    let mut i: usize = 0;
    assert(deleted@.take(0) =~= Seq::<bool>::empty());
    while i < deleted.len()
        invariant
            i <= deleted.len(),
            failed == deleted@.take(i as int).filter(|ok: bool| !ok).len(),
            failed <= i,
        decreases deleted.len() - i,
    {
        proof {
            let next = deleted@.take(i + 1);
            assert(next.drop_last() =~= deleted@.take(i as int));
            assert(next.last() == deleted@[i as int]);
            reveal(Seq::filter);
        }
        if !deleted[i] {
            failed += 1;
        }
        i += 1;
    }
    assert(deleted@.take(deleted.len() as int) =~= deleted@);
    failed
}

/// Whether two descriptors describe the same service. Certificates are
/// compared by their files, not by their digests.
pub open spec fn same_service(a: CreateService, b: CreateService) -> bool {
    &&& a.name@ == b.name@
    &&& a.server_name@.len() == b.server_name@.len()
    &&& forall|i: int| 0 <= i < a.server_name@.len() ==> (#[trigger] a.server_name@[i])@ == b.server_name@[i]@
    &&& binding(a.bind_https) == binding(b.bind_https)
    &&& a.bind_https is Some <==> b.bind_https is Some
    &&& binding(a.bind_http) == binding(b.bind_http)
    &&& a.bind_http is Some <==> b.bind_http is Some
    &&& match (a.cert, b.cert) {
        (Some(x), Some(y)) => x.path@ == y.path@ && x.key_path@ == y.key_path@,
        (None, None) => true,
        _ => false,
    }
    &&& a.auth == b.auth
    &&& a.from@ == b.from@
    &&& a.to@ == b.to@
    &&& a.timeouts == b.timeouts
    &&& a.cpu_threads == b.cpu_threads
    &&& a.user == b.user
}

/// Whether two optional strings hold the same text.
fn same_opt_text(a: &Option<String>, b: &Option<String>) -> (r: bool)
    ensures
        r == (crate::uri::opt_view(*a) == crate::uri::opt_view(*b)),
{
    match (a, b) {
        (Some(x), Some(y)) => crate::text::str_eq(x.as_str(), y.as_str()),
        (None, None) => true,
        _ => false,
    }
}

/// Whether two optional bindings hold the same addresses.
fn same_opt_binding(a: &Option<crate::addr::Addresses>, b: &Option<crate::addr::Addresses>) -> (r:
    bool)
    ensures
        r == (binding(*a) == binding(*b) && (*a is Some <==> *b is Some)),
{
    match (a, b) {
        (Some(x), Some(y)) => x.same(y),
        (None, None) => true,
        _ => false,
    }
}

/// Tests whether two descriptors describe the same service.
pub fn is_same_service(a: &CreateService, b: &CreateService) -> (r: bool)
    ensures
        r == same_service(*a, *b),
{
    if !crate::text::str_eq(a.name.as_str(), b.name.as_str()) {
        return false;
    }
    if a.server_name.len() != b.server_name.len() {
        return false;
    }
    let mut i: usize = 0;
    while i < a.server_name.len()
        invariant
            i <= a.server_name.len(),
            a.server_name.len() == b.server_name.len(),
            forall|j: int| 0 <= j < i ==> (#[trigger] a.server_name@[j])@ == b.server_name@[j]@,
        decreases a.server_name.len() - i,
    {
        if !crate::text::str_eq(a.server_name[i].as_str(), b.server_name[i].as_str()) {
            return false;
        }
        i += 1;
    }
    if !same_opt_binding(&a.bind_https, &b.bind_https) || !same_opt_binding(
        &a.bind_http,
        &b.bind_http,
    ) {
        return false;
    }
    let certs = match (&a.cert, &b.cert) {
        (Some(x), Some(y)) => crate::text::str_eq(x.path.as_str(), y.path.as_str())
            && crate::text::str_eq(x.key_path.as_str(), y.key_path.as_str()),
        (None, None) => true,
        _ => false,
    };
    if !certs {
        return false;
    }
    a.auth == b.auth && crate::text::str_eq(a.from.as_str(), b.from.as_str()) && same_opt_text(
        &a.to.scheme,
        &b.to.scheme,
    ) && same_opt_text(&a.to.authority, &b.to.authority) && same_opt_text(
        &a.to.path_and_query,
        &b.to.path_and_query,
    ) && a.timeouts == b.timeouts && a.cpu_threads == b.cpu_threads && a.user == b.user
}

/// What to make of a service that the management interface refused to
/// create because one of its name exists: the existing service where it was
/// created with the same descriptor, and nothing otherwise.
pub fn reconcile(create: &CreateService, existing: Service) -> (r: Option<Service>)
    ensures
        r == if same_service(existing.inner, *create) {
            Some(existing)
        } else {
            None
        },
{
    if is_same_service(&existing.inner, create) {
        Some(existing)
    } else {
        None
    }
}

} // verus!
