use ya_http_proxy::codec::{decode_base64, encode_text, within_codec_limit};
use ya_http_proxy::handler::{
    authorize, extract_basic_auth, extract_host, extract_username, forward_authorized,
    forward_req, response, Authorized, ForwardDecision, ForwardRequest, Rejection,
};
use ya_http_proxy::model::{CreateService, Timestamp};
use ya_http_proxy::state::ProxyState;
use ya_http_proxy::stats::ProxyStats;
use ya_http_proxy::uri::Uri;

fn create(name: &str, from: &str, to: &str) -> CreateService {
    CreateService {
        name: name.to_string(),
        server_name: vec![],
        bind_https: None,
        bind_http: None,
        cert: None,
        auth: None,
        from: from.to_string(),
        to: Uri::parse(to).expect("uri"),
        timeouts: None,
        cpu_threads: None,
        user: None,
    }
}

fn request(uri: &str, authorization: Option<&str>, host: Option<&str>) -> ForwardRequest {
    ForwardRequest {
        uri: Uri::parse(uri).expect("uri"),
        authorization: authorization.map(|s| s.to_string()),
        host: host.map(|s| s.to_string()),
    }
}

fn state_with_service() -> ProxyState {
    let mut state = ProxyState::new();
    state
        .add_service_at(create("s", "/test", "http://127.0.0.1:9090/"), Timestamp { secs: 1, nanos: 0 })
        .expect("added");
    state
}

fn rejected(status: u16) -> ForwardDecision {
    ForwardDecision::Reject(Rejection {
        status,
        www_authenticate: if status == 401 {
            Some("Basic realm=\"Service access\"".to_string())
        } else {
            None
        },
    })
}

#[test]
fn answers_of_the_proxy() {
    assert_eq!(response(404), Rejection { status: 404, www_authenticate: None });
    assert_eq!(
        response(401),
        Rejection {
            status: 401,
            www_authenticate: Some("Basic realm=\"Service access\"".to_string())
        }
    );
    assert_eq!(response(403).www_authenticate, None);
    assert_eq!(response(500).status, 500);
}

#[test]
fn credentials_in_the_header() {
    assert_eq!(extract_basic_auth(Some("Basic dTpw")), Ok("dTpw"));
    assert_eq!(extract_basic_auth(Some("basic dTpw")), Ok("dTpw"));
    assert_eq!(extract_basic_auth(Some("BASIC   dTpw  ")), Ok("dTpw"));
    assert_eq!(extract_basic_auth(Some("Basic ")), Ok(""));
    assert_eq!(extract_basic_auth(Some("Basic")), Err(()));
    assert_eq!(extract_basic_auth(Some("Bearer dTpw")), Err(()));
    assert_eq!(extract_basic_auth(Some(" Basic dTpw")), Err(()));
    assert_eq!(extract_basic_auth(Some("")), Err(()));
    assert_eq!(extract_basic_auth(None), Err(()));
}

#[test]
fn user_names_in_credentials() {
    assert_eq!(extract_username("u:p"), Ok("u"));
    assert_eq!(extract_username("user:pa:ss"), Ok("user"));
    assert_eq!(extract_username("nocolon"), Ok("nocolon"));
    assert_eq!(extract_username(":p"), Ok(""));
}

#[test]
fn base64_texts() {
    assert_eq!(encode_text("u:p"), "dTpw");
    assert_eq!(encode_text(""), "");
    assert_eq!(encode_text("a"), "YQ==");
    assert_eq!(decode_base64("dTpw"), Ok("u:p".to_string()));
    assert_eq!(decode_base64("YQ=="), Ok("a".to_string()));
    // not base64
    assert_eq!(decode_base64("dTp"), Err(()));
    assert_eq!(decode_base64("!!!!"), Err(()));
    // base64 of bytes that are not UTF-8
    assert_eq!(decode_base64("/w=="), Err(()));
    assert!(within_codec_limit("dTpw"));
}

#[test]
fn no_service_for_the_path() {
    let state = state_with_service();
    let mut stats = ProxyStats::new();
    let r = forward_req(&request("/other/x", Some("Basic dTpw"), None), &state, &mut stats, "1.2.3.4");
    assert_eq!(r, rejected(404));
    assert_eq!(stats.total(), 0);
    let empty = ProxyState::new();
    let r = forward_req(&request("/test/x", None, None), &empty, &mut stats, "1.2.3.4");
    assert_eq!(r, rejected(404));
}

#[test]
fn auth_negative() {
    let mut state = state_with_service();
    let mut stats = ProxyStats::new();
    // no users at all
    let r = forward_req(&request("http://127.0.0.1:8080/test/x", None, None), &state, &mut stats, "1.2.3.4");
    assert_eq!(r, rejected(401));
    let r = forward_req(&request("/test/x", Some("Basic dTpw"), None), &state, &mut stats, "1.2.3.4");
    assert_eq!(r, rejected(401));
    // a user, and the wrong credentials or scheme
    state.add_user_at("s", "u", "p", Timestamp { secs: 2, nanos: 0 }).expect("user");
    let r = forward_req(&request("/test/x", Some("Basic dTpx"), None), &state, &mut stats, "1.2.3.4");
    assert_eq!(r, rejected(401));
    let r = forward_req(&request("/test/x", Some("Bearer dTpw"), None), &state, &mut stats, "1.2.3.4");
    assert_eq!(r, rejected(401));
    let r = forward_req(&request("/test/x", Some("dTpw"), None), &state, &mut stats, "1.2.3.4");
    assert_eq!(r, rejected(401));
    assert_eq!(stats.total(), 0);
    assert!(matches!(authorize(&request("/test/x", None, None), &state), Err(r) if r.status == 401));
}

#[test]
fn auth_positive_and_forward() {
    let mut state = state_with_service();
    let mut stats = ProxyStats::new();
    state.add_user_at("s", "u", "p", Timestamp { secs: 2, nanos: 0 }).expect("user");
    let req = request(
        "http://127.0.0.1:8080/test/resource",
        Some("Basic dTpw"),
        Some("proxy.example.com"),
    );
    let r = forward_req(&req, &state, &mut stats, "10.1.2.3");
    match r {
        ForwardDecision::Forward(f) => {
            assert_eq!(f.uri, Uri::parse("http://127.0.0.1:9090/resource").unwrap());
            assert_eq!(f.uri.path(), "/resource");
            assert_eq!(f.x_forwarded_for, "10.1.2.3");
            assert_eq!(f.x_forwarded_host, Some("proxy.example.com".to_string()));
            assert_eq!(f.username, "u");
        }
        other => panic!("not forwarded: {:?}", other),
    }
    assert_eq!(stats.total(), 1);
    assert_eq!(stats.user("u"), Some(1));
    assert_eq!(stats.endpoint("/test/resource"), Some(1));
    assert_eq!(stats.user_endpoint("u").unwrap().get("/test/resource"), Some(&1));

    // without a Host header nothing is forwarded as host
    let r = forward_req(&request("/test/resource?x=1", Some("basic dTpw"), None), &state, &mut stats, "::1");
    match r {
        ForwardDecision::Forward(f) => {
            assert_eq!(f.uri.to_text(), "http://127.0.0.1:9090/resource?x=1");
            assert_eq!(f.x_forwarded_for, "::1");
            assert_eq!(f.x_forwarded_host, None);
        }
        other => panic!("not forwarded: {:?}", other),
    }
    assert_eq!(stats.user("u"), Some(2));
    assert_eq!(extract_host(&req), Some("proxy.example.com".to_string()));
    let ok = authorize(&req, &state).expect("authorized");
    assert_eq!(ok.from, "/test");
    assert_eq!(ok.token, "dTpw");
}

#[test]
fn a_request_that_cannot_be_rewritten_is_counted_and_fails() {
    let mut state = ProxyState::new();
    let mut broken = create("s", "/test", "http://127.0.0.1:9090/");
    broken.to = Uri { scheme: None, authority: Some("example.com".to_string()), path_and_query: None };
    state.add_service_at(broken, Timestamp { secs: 1, nanos: 0 }).expect("added");
    state.add_user_at("s", "u", "p", Timestamp { secs: 2, nanos: 0 }).expect("user");
    let mut stats = ProxyStats::new();
    let r = forward_req(&request("/test/x", Some("Basic dTpw"), None), &state, &mut stats, "1.2.3.4");
    assert_eq!(r, rejected(500));
    assert_eq!(stats.total(), 1);
    assert_eq!(stats.user("u"), Some(1));
}

#[test]
fn credentials_that_cannot_be_read_are_forbidden() {
    let mut stats = ProxyStats::new();
    let req = request("/test/x", None, None);
    let to = Uri::parse("http://127.0.0.1:9090/").unwrap();
    let not_base64 = Authorized { from: "/test".to_string(), to: to.clone(), token: "%%%".to_string() };
    assert_eq!(forward_authorized(&not_base64, &req, &mut stats, "1.2.3.4"), rejected(403));
    let not_text = Authorized { from: "/test".to_string(), to: to.clone(), token: "/w==".to_string() };
    assert_eq!(forward_authorized(&not_text, &req, &mut stats, "1.2.3.4"), rejected(403));
    assert_eq!(stats.total(), 0);
    let fine = Authorized { from: "/test".to_string(), to, token: "dXNlcjpwYXNz".to_string() };
    match forward_authorized(&fine, &req, &mut stats, "1.2.3.4") {
        ForwardDecision::Forward(f) => {
            assert_eq!(f.username, "user");
            assert_eq!(f.uri.to_text(), "http://127.0.0.1:9090/x");
        }
        other => panic!("not forwarded: {:?}", other),
    }
    assert_eq!(stats.user("user"), Some(1));
}
