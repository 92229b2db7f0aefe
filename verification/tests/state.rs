use ya_http_proxy::error::{Error, ServiceError, UserError};
use ya_http_proxy::model::{CreateService, Timestamp};
use ya_http_proxy::service::ProxyService;
use ya_http_proxy::state::{normalize_endpoint, ProxyState};
use ya_http_proxy::strmap::{StringMap, StringSet};
use ya_http_proxy::uri::Uri;

fn create(name: &str, from: &str) -> CreateService {
    CreateService {
        name: name.to_string(),
        server_name: vec![],
        bind_https: None,
        bind_http: None,
        cert: None,
        auth: None,
        from: from.to_string(),
        to: Uri::parse("http://127.0.0.1:9090/").expect("uri"),
        timeouts: None,
        cpu_threads: None,
        user: None,
    }
}

fn at(secs: i64) -> Timestamp {
    Timestamp { secs, nanos: 0 }
}

#[test]
fn endpoints_are_normalised() {
    assert_eq!(normalize_endpoint(""), "/");
    assert_eq!(normalize_endpoint("   "), "/");
    assert_eq!(normalize_endpoint("test"), "/test");
    assert_eq!(normalize_endpoint(" /test "), "/test");
    assert_eq!(normalize_endpoint("/"), "/");
}

#[test]
fn add_get_and_remove_a_service() {
    let mut state = ProxyState::new();
    assert_eq!(state.len(), 0);
    let service = state.add_service_at(create("s", "test"), at(5)).expect("added");
    assert_eq!(service.created_at, at(5));
    assert_eq!(service.inner.name, "s");
    assert_eq!(service.inner.from, "/test");
    assert_eq!(state.len(), 1);
    assert!(state.contains("s"));
    let found = state.get_service("s").expect("found");
    assert_eq!(found.created_at(), at(5));
    assert_eq!(found.created_with().from, "/test");
    assert_eq!(state.list(), vec![service]);

    assert_eq!(state.remove_service("s"), Ok(()));
    assert_eq!(state.len(), 0);
    assert!(!state.contains("s"));
    assert_eq!(state.remove_service("s"), Err(ServiceError::NotFound("s".to_string())));
    assert!(matches!(state.get_service("s"), Err(ServiceError::NotFound(n)) if n == "s"));
}

#[test]
fn a_taken_name_is_refused() {
    let mut state = ProxyState::new();
    state.add_service_at(create("s", "/a"), at(1)).expect("added");
    let r = state.add_service_at(create("s", "/b"), at(2));
    assert_eq!(
        r,
        Err(ServiceError::AlreadyExists { name: "s".to_string(), endpoint: "/b".to_string() })
    );
    assert_eq!(state.len(), 1);
}

#[test]
fn prefix_conflict() {
    let mut state = ProxyState::new();
    state.add_service_at(create("a", "/x"), at(1)).expect("added");
    // an endpoint below one that is there
    let below = state.add_service_at(create("b", "/x/y"), at(2));
    assert_eq!(
        below,
        Err(ServiceError::AlreadyExists { name: "b".to_string(), endpoint: "/x/y".to_string() })
    );
    assert_eq!(below.unwrap_err().message(), "Service 'b' is already bound to '/x/y'");
    // an endpoint above one that is there
    let above = state.add_service_at(create("c", "/"), at(3));
    assert!(matches!(above, Err(ServiceError::AlreadyExists { .. })));
    // the same endpoint
    let same = state.add_service_at(create("d", "/x"), at(4));
    assert!(matches!(same, Err(ServiceError::AlreadyExists { .. })));
    // a prefix of characters, not of segments, clashes too
    let longer = state.add_service_at(create("e", "/xy"), at(5));
    assert!(matches!(longer, Err(ServiceError::AlreadyExists { .. })));
    // an endpoint beside it is accepted
    assert!(state.add_service_at(create("f", "/y"), at(6)).is_ok());
    assert_eq!(state.len(), 2);
    assert!(!state.has_clash("/z"));
    assert!(state.has_clash("/y/z"));
}

#[test]
fn every_name_leads_to_its_endpoint() {
    let mut state = ProxyState::new();
    for (name, from) in [("a", "/a"), ("b", "/b"), ("c", "/c/d")] {
        state.add_service_at(create(name, from), at(1)).expect("added");
    }
    state.remove_service("b").expect("removed");
    for (name, from) in [("a", "/a"), ("c", "/c/d")] {
        let service = state.get_service(name).expect("found");
        assert_eq!(service.created_with().name, name);
        assert_eq!(service.created_with().from, from);
        let by_path = state.find_by_path(&format!("{}/x", from)).expect("matched");
        assert_eq!(by_path.created_with().name, name);
    }
    assert!(state.find_by_path("/b/x").is_none());
    assert!(state.find_by_path("/c").is_none());
}

#[test]
fn a_recreated_service_is_not_older() {
    let mut state = ProxyState::new();
    let first = state.add_service_at(create("s", "/test"), at(100)).expect("added");
    state.remove_service("s").expect("removed");
    let second = state.add_service_at(create("s", "/test"), at(100)).expect("added again");
    assert!(first.created_at.not_after(&second.created_at));
    assert_eq!(first.inner, second.inner);
    state.remove_service("s").expect("removed");
    let a = state.add_service(create("s", "/test")).expect("added");
    state.remove_service("s").expect("removed");
    let b = state.add_service(create("s", "/test")).expect("added");
    assert!(a.created_at.not_after(&b.created_at));
}

#[test]
fn users_of_a_service() {
    let mut service = ProxyService::new_at(create("s", "/test"), at(1));
    assert!(service.get_users().is_empty());
    let user = service.add_user_at("u", "p", at(2)).expect("added");
    assert_eq!(user.username, "u");
    assert_eq!(user.created_at, at(2));
    assert_eq!(user.credentials(), "dTpw");
    assert!(service.authorizes("dTpw"));
    assert!(!service.authorizes("dTpx"));
    assert!(!service.authorizes("u:p"));

    let again = service.add_user_at("u", "other", at(3));
    assert!(matches!(again, Err(UserError::AlreadyExists(n)) if n == "u"));
    assert_eq!(service.get_user("u").expect("found").credentials(), "dTpw");

    let second = service.add_user("user", "pass").expect("added");
    assert_eq!(second.credentials(), "dXNlcjpwYXNz");
    let names: Vec<String> = service.get_users().into_iter().map(|u| u.username).collect();
    assert_eq!(names, vec!["u".to_string(), "user".to_string()]);

    assert_eq!(service.remove_user("u"), Ok(()));
    assert!(!service.authorizes("dTpw"));
    assert!(service.authorizes("dXNlcjpwYXNz"));
    assert!(matches!(service.remove_user("u"), Err(UserError::NotFound(n)) if n == "u"));
    assert!(matches!(service.get_user("u"), Err(UserError::NotFound(n)) if n == "u"));
    assert_eq!(service.created_at(), at(1));
}

#[test]
fn users_through_the_state() {
    let mut state = ProxyState::new();
    state.add_service_at(create("s", "/test"), at(1)).expect("added");
    let user = state.add_user_at("s", "a", "b", at(2)).expect("user");
    assert_eq!(user.credentials(), "YTpi");
    assert!(matches!(
        state.add_user_at("s", "a", "c", at(3)),
        Err(Error::User(UserError::AlreadyExists(n))) if n == "a"
    ));
    assert!(matches!(
        state.add_user_at("t", "a", "b", at(3)),
        Err(Error::Service(ServiceError::NotFound(n))) if n == "t"
    ));
    assert!(state.get_service("s").unwrap().authorizes("YTpi"));
    assert!(matches!(
        state.remove_user("s", "z"),
        Err(Error::User(UserError::NotFound(n))) if n == "z"
    ));
    assert!(matches!(
        state.remove_user("t", "a"),
        Err(Error::Service(ServiceError::NotFound(n))) if n == "t"
    ));
    assert!(state.remove_user("s", "a").is_ok());
    assert!(!state.get_service("s").unwrap().authorizes("YTpi"));
    assert!(state.add_user("s", "a", "b").is_ok());
}

#[test]
fn string_maps_keep_the_order_of_insertion() {
    let mut map: StringMap<u32> = StringMap::new();
    assert_eq!(map.insert("b".to_string(), 1), None);
    assert_eq!(map.insert("a".to_string(), 2), None);
    assert_eq!(map.insert("b".to_string(), 3), Some(1));
    assert_eq!(map.len(), 2);
    assert_eq!(map.key_at(0), "b");
    assert_eq!(map.value_at(0), &3);
    assert_eq!(map.key_at(1), "a");
    assert_eq!(map.get("a"), Some(&2));
    assert_eq!(map.get("c"), None);
    assert_eq!(map.find("a"), Some(1));
    assert!(map.contains_key("b"));
    assert_eq!(map.replace_at(1, 9), 2);
    *map.value_at_mut(0) += 1;
    assert_eq!(map.get("b"), Some(&4));
    assert_eq!(map.remove("b"), Some(4));
    assert_eq!(map.remove("b"), None);
    assert_eq!(map.len(), 1);
    assert_eq!(map.key_at(0), "a");
    assert_eq!(map.get("a"), Some(&9));

    let mut set = StringSet::new();
    set.insert("x".to_string());
    set.insert("x".to_string());
    assert!(set.contains("x"));
    set.remove("x");
    assert!(!set.contains("x"));
}
