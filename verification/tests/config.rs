use ya_http_proxy::addr::{Addresses, SocketAddress};
use ya_http_proxy::api::Method;
use ya_http_proxy::client::ManagementApi;
use ya_http_proxy::config::{normalize_key, sanitize_value, Json, ServiceConf, KEY_PATTERN};
use ya_http_proxy::model::{
    AuthMethod, CreateService, CreateServiceCert, Service, Timestamp, UserStats,
};
use ya_http_proxy::runtime::{
    count_failures, count_requests, is_same_service, reconcile, RuntimeCommand, ServiceCommand,
    UserCommand,
};
use ya_http_proxy::strmap::StringMap;
use ya_http_proxy::text::{collapse_pairs, replace_char, to_ascii_lowercase, trim_end_char};
use ya_http_proxy::uri::Uri;

fn number(text: &str) -> Json {
    Json::Number(text.to_string())
}

fn text(text: &str) -> Json {
    Json::Text(text.to_string())
}

fn service() -> CreateService {
    CreateService {
        name: "service_1".to_string(),
        server_name: vec![],
        bind_https: Some(Addresses::from_addr(SocketAddress::v4(127, 0, 0, 1, 443))),
        bind_http: None,
        cert: Some(CreateServiceCert {
            hash: String::new(),
            path: "/tmp/server.cert".to_string(),
            key_path: "/tmp/server.key".to_string(),
        }),
        auth: None,
        from: "/".to_string(),
        to: Uri::parse("http://127.0.0.1:8444").expect("uri"),
        timeouts: None,
        cpu_threads: None,
        user: None,
    }
}

#[test]
fn service_offer_properties() {
    let mut offer_properties = StringMap::new();
    offer_properties.insert("first".to_string(), number("1"));
    offer_properties.insert("second\\".to_string(), Json::Bool(true));
    offer_properties.insert(
        "third/=.3".to_string(),
        Json::Array(vec![number("1"), text("two"), Json::Object("{\"three\":3}".to_string())]),
    );
    offer_properties.insert(" fourth".to_string(), text("4"));
    offer_properties.insert("fifth..".to_string(), Json::Null);

    let service = ServiceConf { inner: service(), offer_properties };

    let properties = service.offer_properties("meta").expect("failed to build offer properties");

    assert_eq!(properties.len(), 4);
    assert_eq!(properties.get("meta.first"), Some(&number("1")));
    assert_eq!(properties.get("meta.fourth"), Some(&text("4")));
    assert_eq!(properties.get("meta.second"), Some(&Json::Bool(true)));
    assert_eq!(
        properties.get("meta.third.3"),
        Some(&Json::Array(vec![number("1"), text("two"), text("{\"three\":3}")]))
    );
    assert_eq!(properties.get("meta.fifth"), None);
}

#[test]
fn values_as_they_are_published() {
    assert_eq!(sanitize_value(&Json::Null), None);
    assert_eq!(sanitize_value(&Json::Bool(false)), Some(Json::Bool(false)));
    assert_eq!(sanitize_value(&number("1.5")), Some(number("1.5")));
    assert_eq!(sanitize_value(&Json::Object("{}".to_string())), Some(text("{}")));
    assert_eq!(
        sanitize_value(&Json::Array(vec![
            Json::Null,
            Json::Array(vec![Json::Null, number("2")]),
            Json::Null,
        ])),
        Some(Json::Array(vec![Json::Array(vec![number("2")])]))
    );
    assert_eq!(sanitize_value(&Json::Array(vec![])), Some(Json::Array(vec![])));
}

#[test]
fn keys_of_properties() {
    assert_eq!(KEY_PATTERN, "[^A-Za-z0-9-_.]+");
    assert_eq!(normalize_key("a_b"), "a-b");
    assert_eq!(normalize_key("a__b"), "a-b");
    assert_eq!(normalize_key("a---b"), "a--b");
    assert_eq!(normalize_key("a...b.."), "a..b");
    assert_eq!(normalize_key("..."), "");
    assert_eq!(normalize_key(""), "");
    // only the first run of characters that are not allowed is taken out
    let mut props = StringMap::new();
    props.insert("A b/c d".to_string(), Json::Bool(true));
    let conf = ServiceConf { inner: service(), offer_properties: props };
    let out = conf.offer_properties("p").expect("properties");
    assert_eq!(out.key_at(0), "p.ab/c d");
    // a later property replaces an earlier one of the same name
    let mut twice = StringMap::new();
    twice.insert("x_y".to_string(), number("1"));
    twice.insert("X-Y".to_string(), number("2"));
    let conf = ServiceConf { inner: service(), offer_properties: twice };
    let out = conf.offer_properties("p").expect("properties");
    assert_eq!(out.len(), 1);
    assert_eq!(out.get("p.x-y"), Some(&number("2")));
}

#[test]
fn changing_characters() {
    assert_eq!(to_ascii_lowercase("AbC-Ż1"), "abc-Ż1");
    assert_eq!(replace_char("a_b_", '_', '-'), "a-b-");
    assert_eq!(collapse_pairs("----", '-'), "--");
    assert_eq!(collapse_pairs("a--b-c---", '-'), "a-b-c--");
    assert_eq!(collapse_pairs("", '-'), "");
    assert_eq!(trim_end_char("a.b...", '.'), "a.b");
    assert_eq!(trim_end_char("...", '.'), "");
    assert_eq!(trim_end_char("abc", '.'), "abc");
}

#[test]
fn requests_of_commands() {
    let api = ManagementApi::try_default(None).expect("api");
    let add = UserCommand::Add {
        username: "u".to_string(),
        password: "p".to_string(),
        auth: AuthMethod::Basic,
    };
    let call = add.call(&api, "s");
    assert_eq!(call.method, Method::Post);
    assert_eq!(call.url, "http://127.0.0.1:6668/services/s/users");
    let remove = UserCommand::Remove { username: "u".to_string(), auth: AuthMethod::Basic };
    let call = remove.call(&api, "s");
    assert_eq!(call.method, Method::Delete);
    assert_eq!(call.url, "http://127.0.0.1:6668/services/s/users/u");
    assert_eq!(UserCommand::List.call(&api, "s").url, "http://127.0.0.1:6668/services/s/users");
    let stats = RuntimeCommand::User(UserCommand::Stats { username: "u".to_string() });
    let call = stats.call(&api, "s");
    assert_eq!(call.method, Method::Get);
    assert_eq!(call.url, "http://127.0.0.1:6668/services/s/users/u/endpoints/stats");
    let info = RuntimeCommand::Service(ServiceCommand::Info).call(&api, "s");
    assert_eq!(info.url, "http://127.0.0.1:6668/services/s");
}

#[test]
fn counting_for_the_runtime() {
    let stats = vec![
        Some(UserStats { requests: 3 }),
        None,
        Some(UserStats { requests: 0 }),
        Some(UserStats { requests: 39 }),
    ];
    assert_eq!(count_requests(&stats), 42);
    assert_eq!(count_requests(&vec![]), 0);
    assert_eq!(count_requests(&vec![None, None]), 0);
    assert_eq!(count_failures(&vec![true, false, true, false, false]), 3);
    assert_eq!(count_failures(&vec![]), 0);
    assert_eq!(count_failures(&vec![true]), 0);
}

#[test]
fn an_existing_service_is_taken_when_it_is_the_same() {
    let create = service();
    let mut same = service();
    same.cert.as_mut().unwrap().hash = "sha3:00".to_string();
    assert!(is_same_service(&create, &same));
    let existing = Service::from(same, Timestamp { secs: 1, nanos: 0 });
    assert_eq!(reconcile(&create, existing.clone()), Some(existing));

    let mut other = service();
    other.from = "/other".to_string();
    assert!(!is_same_service(&create, &other));
    assert_eq!(reconcile(&create, Service::from(other, Timestamp { secs: 1, nanos: 0 })), None);
    let mut other = service();
    other.cert.as_mut().unwrap().key_path = "/tmp/other.key".to_string();
    assert!(!is_same_service(&create, &other));
    let mut other = service();
    other.server_name = vec!["a".to_string()];
    assert!(!is_same_service(&create, &other));
    let mut other = service();
    other.bind_http = Some(Addresses::new(vec![]));
    assert!(!is_same_service(&create, &other));
    let mut other = service();
    other.to = Uri::parse("http://127.0.0.1:8445").expect("uri");
    assert!(!is_same_service(&create, &other));
}
