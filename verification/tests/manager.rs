use ya_http_proxy::addr::{Addresses, SocketAddress};
use ya_http_proxy::api::{
    check_body_size, delete_service, delete_user, err_response, get_service, get_services,
    get_user, get_user_endpoint_stats, get_user_stats, get_users, not_found_response,
    post_services_begin, post_services_finish, post_shutdown, post_users, route, success_status,
    ApiErrorKind, Method, Route, MAX_BODY_SIZE,
};
use ya_http_proxy::conf::ProxyConf;
use ya_http_proxy::error::{Error, ManagementError, ProxyError, ServiceError, TlsError, UserError};
use ya_http_proxy::handler::{ForwardDecision, ForwardRequest};
use ya_http_proxy::manager::{ProxyManager, Spawn};
use ya_http_proxy::model::{CreateService, CreateServiceCert, CreateUser, Service, Timestamp};
use ya_http_proxy::proxy::{cert_path, conf_update, Proxy};
use ya_http_proxy::uri::Uri;

fn local(port: u16) -> Addresses {
    Addresses::from_addr(SocketAddress::v4(127, 0, 0, 1, port))
}

fn create(name: &str, http: Option<Addresses>, from: &str) -> CreateService {
    CreateService {
        name: name.to_string(),
        server_name: vec![],
        bind_https: None,
        bind_http: http,
        cert: None,
        auth: None,
        from: from.to_string(),
        to: Uri::parse("http://127.0.0.1:9090/").expect("uri"),
        timeouts: None,
        cpu_threads: None,
        user: None,
    }
}

fn defaults() -> ProxyConf {
    let mut conf = ProxyConf::default();
    conf.server.server_name = vec!["proxy.example.com".to_string()];
    conf
}

fn no_file() -> Result<Vec<u8>, String> {
    Ok(Vec::new())
}

fn at(secs: i64) -> Timestamp {
    Timestamp { secs, nanos: 0 }
}

/// Creates a service the way the management interface does: find or start
/// the instance, then add the service to it.
fn post(manager: &mut ProxyManager, mut create: CreateService, now: Timestamp) -> Result<Service, ApiErrorKind> {
    let i = match post_services_begin(manager, &mut create, &no_file())? {
        Spawn::Existing(i) => i,
        Spawn::New(proxy) => {
            proxy.start().expect("can start");
            manager.bound(proxy, Ok(())).expect("bound")
        }
    };
    post_services_finish(manager, i, create, now)
}

#[test]
fn create_list_delete_service() {
    let mut manager = ProxyManager::new(defaults());
    let service = post(&mut manager, create("s", Some(local(8080)), "/test"), at(1)).expect("created");
    assert_eq!(service.inner.name, "s");
    assert_eq!(service.inner.from, "/test");
    assert_eq!(service.inner.server_name, vec!["proxy.example.com".to_string()]);
    assert_eq!(service.created_at, at(1));
    assert_eq!(get_services(&manager).len(), 1);
    assert_eq!(get_service(&manager, "s"), Ok(service));
    assert_eq!(delete_service(&mut manager, "s"), Ok(()));
    assert_eq!(success_status(true), 204);
    assert_eq!(success_status(false), 200);
    assert_eq!(get_services(&manager).len(), 0);
    let gone = get_service(&manager, "s").unwrap_err();
    assert_eq!(gone.status(), 400);
    assert_eq!(err_response(&gone).1.message, "Service 's' not found");
    assert_eq!(delete_service(&mut manager, "s").unwrap_err().status(), 400);
}

#[test]
fn prefix_conflict_is_answered_with_409() {
    let mut manager = ProxyManager::new(defaults());
    post(&mut manager, create("a", Some(local(8080)), "/x"), at(1)).expect("created");
    let refused = post(&mut manager, create("b", Some(local(8080)), "/x/y"), at(2)).unwrap_err();
    assert_eq!(refused.status(), 409);
    let (status, body) = err_response(&refused);
    assert_eq!(status, 409);
    assert_eq!(body.message, "Service 'b' is already bound to '/x/y'");
    assert_eq!(refused.message(), "Conflict: Service 'b' is already bound to '/x/y'");
    assert_eq!(get_services(&manager).len(), 1);
}

#[test]
fn shared_binding_multiplex() {
    let mut manager = ProxyManager::new(defaults());
    post(&mut manager, create("one", Some(local(8080)), "/one"), at(1)).expect("created");
    assert_eq!(manager.len(), 1);
    // the second service names the same addresses: no new instance
    let mut second = create("two", Some(local(8080)), "/two");
    let before = second.clone();
    match manager.get_or_spawn(&mut second, &no_file()) {
        Ok(Spawn::Existing(0)) => {}
        _ => panic!("a second instance for the same binding"),
    }
    assert_eq!(second, before);
    post(&mut manager, second, at(2)).expect("created");
    assert_eq!(manager.len(), 1);
    let names: Vec<String> = get_services(&manager).into_iter().map(|s| s.inner.name).collect();
    assert_eq!(names, vec!["one".to_string(), "two".to_string()]);
    // another binding gets an instance of its own
    post(&mut manager, create("three", Some(local(8081)), "/one"), at(3)).expect("created");
    assert_eq!(manager.len(), 2);
    assert_eq!(get_services(&manager).len(), 3);
    assert_eq!(manager.proxy("three"), Ok(1));
    assert_eq!(manager.proxy("two"), Ok(0));
    assert!(matches!(manager.proxy("four"), Err(Error::Service(ServiceError::NotFound(n))) if n == "four"));
}

#[test]
fn every_instance_is_kept_under_its_binding() {
    let mut manager = ProxyManager::new(defaults());
    post(&mut manager, create("a", Some(local(1)), "/a"), at(1)).expect("created");
    post(&mut manager, create("b", Some(local(2)), "/b"), at(1)).expect("created");
    post(&mut manager, create("c", Some(local(1)), "/c"), at(1)).expect("created");
    for i in 0..manager.len() {
        assert_eq!(manager.key_at(i), &manager.proxy_at(i).conf.server.addresses());
        assert_eq!(manager.find(manager.key_at(i)), Some(i));
    }
    assert_eq!(manager.find(&local(3)), None);
    // spawning for a binding that is taken is an error
    let mut again = create("d", Some(local(2)), "/d");
    assert!(matches!(
        manager.spawn(&mut again, &no_file()),
        Err(Error::Proxy(ProxyError::AlreadyRunning(addrs))) if addrs == local(2)
    ));
}

#[test]
fn users_and_their_statistics() {
    let mut manager = ProxyManager::new(defaults());
    post(&mut manager, create("s", Some(local(8080)), "/test"), at(1)).expect("created");
    assert_eq!(get_users(&manager, "s"), Ok(vec![]));
    let new_user = CreateUser { username: "u".to_string(), password: "p".to_string() };
    let user = post_users(&mut manager, "s", &new_user, at(2)).expect("user");
    assert_eq!(user.username, "u");
    assert_eq!(user.created_at, at(2));
    assert_eq!(post_users(&mut manager, "s", &new_user, at(3)).unwrap_err().status(), 409);
    assert_eq!(post_users(&mut manager, "t", &new_user, at(3)).unwrap_err().status(), 400);
    assert_eq!(get_users(&manager, "s"), Ok(vec![user.clone()]));
    assert_eq!(get_user(&manager, "s", "u"), Ok(user));
    assert_eq!(get_user(&manager, "s", "v").unwrap_err().status(), 400);
    assert_eq!(get_user_stats(&manager, "s", "u").unwrap().requests, 0);

    let request = ForwardRequest {
        uri: Uri::parse("http://127.0.0.1:8080/test/resource").unwrap(),
        authorization: Some("Basic dTpw".to_string()),
        host: None,
    };
    let i = manager.proxy("s").unwrap();
    assert!(matches!(manager.forward(i, &request, "10.0.0.1"), ForwardDecision::Forward(_)));
    assert_eq!(get_user_stats(&manager, "s", "u").unwrap().requests, 1);
    let by_endpoint = get_user_endpoint_stats(&manager, "s", "u").unwrap();
    assert_eq!(by_endpoint.0.get("/test/resource"), Some(&1));
    assert_eq!(by_endpoint.0.len(), 1);
    assert_eq!(err_response(&get_user_stats(&manager, "s", "v").unwrap_err()).1.message, "User 'v' not found");
    assert!(get_user_endpoint_stats(&manager, "s", "v").is_err());
    assert!(get_user_stats(&manager, "t", "u").is_err());

    assert_eq!(delete_user(&mut manager, "s", "u"), Ok(()));
    assert_eq!(delete_user(&mut manager, "s", "u").unwrap_err().status(), 400);
    assert!(matches!(manager.forward(i, &request, "10.0.0.1"), ForwardDecision::Reject(r) if r.status == 401));
}

#[test]
fn defaults_are_merged() {
    let mut defaults = defaults();
    defaults.server.bind_https = Some(local(443));
    defaults.server.cpu_threads = Some(0);
    let mut given = create("s", Some(local(80)), "/test");
    assert_eq!(cert_path(&defaults, &given), None);
    let conf = conf_update(&defaults, &mut given, &no_file()).expect("merged");
    assert_eq!(given.bind_https, Some(local(443)));
    assert_eq!(given.bind_http, Some(local(80)));
    assert_eq!(given.server_name, vec!["proxy.example.com".to_string()]);
    assert_eq!(given.cpu_threads, Some(1));
    assert_eq!(given.cert, None);
    assert_eq!(conf.server.bind_https, Some(local(443)));
    assert_eq!(conf.server.bind_http, Some(local(80)));
    assert_eq!(conf.server.cpu_threads, Some(0));
    assert_eq!(conf.client, defaults.client);

    let mut own = create("s", None, "/test");
    own.server_name = vec!["own.example.com".to_string()];
    own.cpu_threads = Some(4);
    let conf = conf_update(&defaults, &mut own, &no_file()).expect("merged");
    assert_eq!(conf.server.server_name, vec!["own.example.com".to_string()]);
    assert_eq!(own.cpu_threads, Some(4));
    assert_eq!(own.bind_http, None);
}

#[test]
fn missing_server_name_is_a_configuration_error() {
    let mut given = create("s", Some(local(80)), "/test");
    let r = conf_update(&ProxyConf::default(), &mut given, &no_file());
    assert_eq!(r, Err(ProxyError::Conf("Missing public address information".to_string())));
    let mut manager = ProxyManager::new(ProxyConf::default());
    let refused = post(&mut manager, create("s", Some(local(80)), "/test"), at(1)).unwrap_err();
    assert_eq!(refused.status(), 400);
    assert_eq!(
        err_response(&refused).1.message,
        "Proxy configuration error: Missing public address information"
    );
    assert_eq!(manager.len(), 0);
}

#[test]
fn certificates_are_hashed() {
    let mut defaults = defaults();
    let mut given = create("s", Some(local(443)), "/test");
    given.cert = Some(CreateServiceCert {
        hash: String::new(),
        path: "/tmp/server.cert".to_string(),
        key_path: "/tmp/server.key".to_string(),
    });
    assert_eq!(cert_path(&defaults, &given), Some("/tmp/server.cert".to_string()));
    let conf = conf_update(&defaults, &mut given, &Ok(b"abc".to_vec())).expect("merged");
    assert_eq!(
        given.cert.as_ref().unwrap().hash,
        "sha3:3a985da74fe225b2045c172d6bd390bd855f086e3e9d525b46bfe24511431532"
    );
    assert_eq!(conf.server.server_cert.server_cert_store_path, Some("/tmp/server.cert".to_string()));
    assert_eq!(conf.server.server_cert.server_key_path, Some("/tmp/server.key".to_string()));

    // the default certificate is used where the service has none
    defaults.server.server_cert.server_cert_store_path = Some("/etc/default.cert".to_string());
    let mut plain = create("s", Some(local(443)), "/test");
    assert_eq!(cert_path(&defaults, &plain), None);
    conf_update(&defaults, &mut plain, &no_file()).expect("merged");
    assert_eq!(plain.cert, None);
    defaults.server.server_cert.server_key_path = Some("/etc/default.key".to_string());
    assert_eq!(cert_path(&defaults, &plain), Some("/etc/default.cert".to_string()));
    conf_update(&defaults, &mut plain, &Ok(Vec::new())).expect("merged");
    let cert = plain.cert.expect("default certificate");
    assert_eq!(cert.path, "/etc/default.cert");
    assert_eq!(cert.key_path, "/etc/default.key");
    assert_eq!(cert.hash, "sha3:a7ffc6f8bf1ed76651c14756a061d662f580ff4de43b49fa82d80a4b80f8434a");

    // a file that cannot be read
    let mut unreadable = create("s", Some(local(443)), "/test");
    let r = conf_update(&defaults, &mut unreadable, &Err("permission denied".to_string()));
    assert_eq!(
        r,
        Err(ProxyError::Conf(
            "Unable to read the certificate file '/etc/default.cert': permission denied".to_string()
        ))
    );
}

#[test]
fn starting_and_stopping_an_instance() {
    let mut proxy = Proxy::new(ProxyConf::default());
    assert_eq!(
        proxy.start().err(),
        Some(ProxyError::Conf("No listening addresses specified".to_string()))
    );
    proxy.conf.server.bind_http = Some(local(8080));
    let plan = proxy.start().expect("plan");
    assert_eq!(plan.http, Some(vec![SocketAddress::v4(127, 0, 0, 1, 8080)]));
    assert_eq!(plan.https, None);
    proxy.started();
    assert_eq!(proxy.start().err(), Some(ProxyError::AlreadyRunning(local(8080))));
    assert!(proxy.stop());
    assert!(!proxy.stop());
    assert!(proxy.start().is_ok());

    let mut manager = ProxyManager::new(defaults());
    post(&mut manager, create("a", Some(local(1)), "/a"), at(1)).expect("created");
    let mut idle = Proxy::new(ProxyConf::default());
    idle.conf.server.bind_http = Some(local(2));
    manager.insert(idle);
    assert_eq!(post_shutdown(&mut manager), vec![true, false]);
    assert_eq!(manager.len(), 0);
}

#[test]
fn errors_by_status() {
    let conflict = [
        Error::Proxy(ProxyError::AlreadyRunning(local(1))),
        Error::Service(ServiceError::AlreadyExists { name: "s".to_string(), endpoint: "/".to_string() }),
        Error::User(UserError::AlreadyExists("u".to_string())),
    ];
    for e in conflict {
        assert_eq!(ApiErrorKind::from(e.clone()), ApiErrorKind::Conflict(e));
    }
    let bad = [
        Error::Url("invalid format".to_string()),
        Error::Other("expected value".to_string()),
        Error::Proxy(ProxyError::Conf("c".to_string())),
        Error::Service(ServiceError::NotFound("s".to_string())),
        Error::User(UserError::NotFound("u".to_string())),
    ];
    for e in bad {
        let kind = ApiErrorKind::from(e.clone());
        assert_eq!(kind, ApiErrorKind::BadRequest(e));
        assert_eq!(kind.status(), 400);
    }
    let internal = [
        Error::Io("broken pipe".to_string()),
        Error::Tls(TlsError::Other("t".to_string())),
        Error::Management(ManagementError::NotRunning),
        Error::Proxy(ProxyError::Runtime("r".to_string())),
    ];
    for e in internal {
        let kind = ApiErrorKind::from(e.clone());
        assert_eq!(kind, ApiErrorKind::InternalServerError(e.message()));
        assert_eq!(kind.status(), 500);
    }
    assert_eq!(ApiErrorKind::from_json("expected value").status(), 400);
    assert_eq!(ApiErrorKind::internal("closed").message(), "Internal server error closed");
    assert_eq!(not_found_response().0, 404);
}

#[test]
fn large_bodies_are_rejected() {
    assert_eq!(MAX_BODY_SIZE, 8_388_608);
    assert_eq!(check_body_size(0), Ok(()));
    assert_eq!(check_body_size(MAX_BODY_SIZE), Ok(()));
    let refused = check_body_size(MAX_BODY_SIZE + 1).unwrap_err();
    assert_eq!(refused.status(), 400);
}

#[test]
fn routes() {
    let name = || "s".to_string();
    let user = || "u".to_string();
    assert_eq!(route(Method::Get, "/services"), Ok(Route::GetServices));
    assert_eq!(route(Method::Get, "/services/"), Ok(Route::GetServices));
    assert_eq!(route(Method::Post, "/services"), Ok(Route::PostServices));
    assert_eq!(route(Method::Delete, "/services"), Ok(Route::NotFound));
    assert_eq!(route(Method::Get, "/services/s"), Ok(Route::GetService(name())));
    assert_eq!(route(Method::Delete, "/services/s/"), Ok(Route::DeleteService(name())));
    assert_eq!(route(Method::Post, "/services/s"), Ok(Route::NotFound));
    assert_eq!(route(Method::Get, "/services/s/users"), Ok(Route::GetUsers(name())));
    assert_eq!(route(Method::Post, "/services/s/users"), Ok(Route::PostUsers(name())));
    assert_eq!(route(Method::Get, "/services/s/users/u"), Ok(Route::GetUser(name(), user())));
    assert_eq!(route(Method::Delete, "/services/s/users/u"), Ok(Route::DeleteUser(name(), user())));
    assert_eq!(
        route(Method::Get, "/services/s/users/u/stats"),
        Ok(Route::GetUserStats(name(), user()))
    );
    assert_eq!(
        route(Method::Get, "/services/s/users/u/endpoints/stats"),
        Ok(Route::GetUserEndpointStats(name(), user()))
    );
    assert_eq!(route(Method::Post, "/services/s/users/u/stats"), Ok(Route::NotFound));
    assert_eq!(route(Method::Get, "/services/s/users/u/endpoints"), Ok(Route::NotFound));
    assert_eq!(route(Method::Get, "/services//users"), Ok(Route::NotFound));
    assert_eq!(route(Method::Get, "/services/s/other"), Ok(Route::NotFound));
    assert_eq!(route(Method::Get, "/"), Ok(Route::NotFound));
    assert_eq!(route(Method::Get, ""), Ok(Route::NotFound));
    assert_eq!(route(Method::Get, "services"), Ok(Route::NotFound));
    assert_eq!(route(Method::Other, "/services"), Ok(Route::NotFound));
    // the path is percent-decoded before it is matched
    assert_eq!(
        route(Method::Get, "/services/my%20service"),
        Ok(Route::GetService("my service".to_string()))
    );
    assert_eq!(route(Method::Get, "/services/a%2Fb"), Ok(Route::NotFound));
    assert_eq!(route(Method::Get, "/services/%ff").unwrap_err().status(), 500);
    // a percent sign that no two hexadecimal digits follow stands for itself
    assert_eq!(route(Method::Get, "/services/a%2"), Ok(Route::GetService("a%2".to_string())));
    assert_eq!(route(Method::Get, "/services/%zz"), Ok(Route::GetService("%zz".to_string())));
    assert_eq!(route(Method::Get, "/services/%41%6a%6A"), Ok(Route::GetService("Ajj".to_string())));
    assert_eq!(route(Method::Get, "/%73ervices"), Ok(Route::GetServices));
}

#[test]
fn an_instance_is_kept_only_once_it_is_bound() {
    let mut manager = ProxyManager::new(defaults());
    let mut wanted = create("s", Some(local(8080)), "/test");
    let proxy = match manager.get_or_spawn(&mut wanted, &no_file()) {
        Ok(Spawn::New(proxy)) => proxy,
        _ => panic!("no new instance"),
    };
    // the listeners could not be bound: nothing is kept
    let failure = Error::Io("Address already in use (os error 98)".to_string());
    assert_eq!(manager.bound(proxy, Err(failure.clone())), Err(failure));
    assert_eq!(manager.len(), 0);
    assert_eq!(manager.find(&local(8080)), None);
    // bound: the instance is kept under its binding, as running
    let proxy = match manager.get_or_spawn(&mut wanted, &no_file()) {
        Ok(Spawn::New(proxy)) => proxy,
        _ => panic!("no new instance"),
    };
    assert!(!proxy.running);
    assert_eq!(manager.position_for(&proxy), 0);
    assert_eq!(manager.bound(proxy, Ok(())), Ok(0));
    assert_eq!(manager.len(), 1);
    assert!(manager.proxy_at(0).running);
    assert_eq!(manager.key_at(0), &local(8080));
    assert!(matches!(manager.get_or_spawn(&mut wanted, &no_file()), Ok(Spawn::Existing(0))));
    // the position is known before the instance is kept
    let mut other = Proxy::new(defaults());
    other.conf.server.bind_http = Some(local(9090));
    assert_eq!(manager.position_for(&other), 1);
    let mut same = Proxy::new(defaults());
    same.conf.server.bind_http = Some(local(8080));
    assert_eq!(manager.position_for(&same), 0);
    assert_eq!(manager.bound(other, Ok(())), Ok(1));
    assert_eq!(manager.bound(same, Ok(())), Ok(0));
    assert_eq!(manager.len(), 2);
}
