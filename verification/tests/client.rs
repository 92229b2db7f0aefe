use ya_http_proxy::api::Method;
use ya_http_proxy::client::{
    body_within_limit, classify, default_management_api_url, failure, ApiCall, Error,
    ManagementApi, Reading, WebClient, DEFAULT_MANAGEMENT_API_URL, ENV_MANAGEMENT_API_URL,
    MAX_BODY_SIZE,
};
use ya_http_proxy::error::{
    Error as ProxyFailure, ManagementError, ProxyError, ServiceError, TlsError, UserError,
};
use ya_http_proxy::addr::{Addresses, SocketAddress};

#[test]
fn base_url() {
    assert_eq!(DEFAULT_MANAGEMENT_API_URL, "http://127.0.0.1:6668");
    assert_eq!(ENV_MANAGEMENT_API_URL, "MANAGEMENT_API_URL");
    assert_eq!(default_management_api_url(None), "http://127.0.0.1:6668");
    assert_eq!(default_management_api_url(Some("http://10.0.0.1:1".to_string())), "http://10.0.0.1:1");
    assert!(matches!(WebClient::new("http://[bad"), Err(Error::InvalidUriError(_))));
    assert!(ManagementApi::try_from_url("").is_err());
}

#[test]
fn requests_of_the_client() {
    let api = ManagementApi::try_default(None).expect("api");
    let call = |method, url: &str| ApiCall { method, url: url.to_string() };
    assert_eq!(api.get_services(), call(Method::Get, "http://127.0.0.1:6668/services"));
    assert_eq!(api.create_service(), call(Method::Post, "http://127.0.0.1:6668/services"));
    assert_eq!(api.get_service("s"), call(Method::Get, "http://127.0.0.1:6668/services/s"));
    assert_eq!(api.delete_service("s"), call(Method::Delete, "http://127.0.0.1:6668/services/s"));
    assert_eq!(api.get_users("s"), call(Method::Get, "http://127.0.0.1:6668/services/s/users"));
    assert_eq!(api.create_user("s"), call(Method::Post, "http://127.0.0.1:6668/services/s/users"));
    assert_eq!(api.get_user("s", "u"), call(Method::Get, "http://127.0.0.1:6668/services/s/users/u"));
    assert_eq!(
        api.delete_user("s", "u"),
        call(Method::Delete, "http://127.0.0.1:6668/services/s/users/u")
    );
    assert_eq!(
        api.get_user_stats("s", "u"),
        call(Method::Get, "http://127.0.0.1:6668/services/s/users/u/stats")
    );
    assert_eq!(
        api.get_endpoint_user_stats("s", "u"),
        call(Method::Get, "http://127.0.0.1:6668/services/s/users/u/endpoints/stats")
    );
    assert_eq!(api.get_global_stats(), call(Method::Get, "http://127.0.0.1:6668/stats"));
    let other = ManagementApi::try_from_url("http://proxy:1/api/").expect("api");
    assert_eq!(other.get_services().url, "http://proxy:1/api/services");
    let from_env = ManagementApi::try_default(Some("http://10.0.0.1:7".to_string())).expect("api");
    assert_eq!(from_env.get_global_stats().url, "http://10.0.0.1:7/stats");
}

#[test]
fn reading_an_answer() {
    assert_eq!(classify(204, None), Reading::Empty);
    assert_eq!(classify(200, Some("0")), Reading::Empty);
    assert_eq!(classify(500, Some("0")), Reading::Empty);
    assert_eq!(classify(200, Some("17")), Reading::Value);
    assert_eq!(classify(200, None), Reading::Value);
    assert_eq!(classify(299, Some("00")), Reading::Value);
    assert_eq!(classify(199, None), Reading::Failure);
    assert_eq!(classify(300, None), Reading::Failure);
    assert_eq!(classify(409, Some("40")), Reading::Failure);
    assert_eq!(MAX_BODY_SIZE, 8 * 1024 * 1024);
    assert!(body_within_limit(MAX_BODY_SIZE));
    assert!(!body_within_limit(MAX_BODY_SIZE + 1));
}

#[test]
fn failures_of_the_client() {
    let call = ApiCall { method: Method::Post, url: "http://127.0.0.1:6668/services".to_string() };
    let with_body = failure(call.clone(), 409, Some("Service 'b' is already bound to '/x/y'".to_string()), "Conflict");
    assert_eq!(
        with_body,
        Error::SendRequestError {
            code: 409,
            msg: "Service 'b' is already bound to '/x/y'".to_string(),
            method: Method::Post,
            url: "http://127.0.0.1:6668/services".to_string(),
        }
    );
    assert_eq!(
        with_body.message(),
        "HTTP error requesting POST http://127.0.0.1:6668/services: 409; msg: 'Service 'b' is already bound to '/x/y''"
    );
    let without = failure(call, 502, None, "Bad Gateway");
    assert!(matches!(without, Error::SendRequestError { code: 502, msg, .. } if msg == "Bad Gateway"));
    let unsent = Error::from_request("connection refused", Method::Get, "http://x/".to_string());
    assert!(matches!(unsent, Error::SendRequestError { code: 500, .. }));
    assert_eq!(Error::JsonError("eof".to_string()).message(), "JSON error: eof");
    assert_eq!(Error::Utf8Error("bad".to_string()).message(), "Invalid UTF8 string: bad");
    assert_eq!(Error::PayloadError("big".to_string()).message(), "AWC payload error: big");
    assert_eq!(Error::InvalidUriError("empty".to_string()).message(), "Invalid URI string: empty");
}

#[test]
fn texts_of_errors() {
    let addr = SocketAddress::v4(127, 0, 0, 1, 6668);
    let cases = [
        (ProxyFailure::Io("broken".to_string()), "I/O error: broken"),
        (ProxyFailure::Url("invalid".to_string()), "Invalid URL: invalid"),
        (ProxyFailure::Other("plain".to_string()), "plain"),
        (ProxyFailure::Tls(TlsError::ClientCertStore("a".to_string())), "Client CA certificate error: a"),
        (ProxyFailure::Tls(TlsError::ServerCertStore("b".to_string())), "Server certificate error: b"),
        (ProxyFailure::Tls(TlsError::ServerCertKey("c".to_string())), "Server key error: c"),
        (ProxyFailure::Tls(TlsError::Other("d".to_string())), "TLS error: d"),
        (ProxyFailure::Management(ManagementError::NotRunning), "Management API server is not running"),
        (
            ProxyFailure::Management(ManagementError::Bind { address: addr, message: "in use".to_string() }),
            "Management API server cannot bind to 127.0.0.1:6668: in use",
        ),
        (
            ProxyFailure::Proxy(ProxyError::AlreadyRunning(Addresses::from_addr(addr))),
            "Proxy is already running on [127.0.0.1:6668]",
        ),
        (ProxyFailure::Proxy(ProxyError::Runtime("r".to_string())), "Proxy runtime error: r"),
        (ProxyFailure::Proxy(ProxyError::Conf("c".to_string())), "Proxy configuration error: c"),
        (
            ProxyFailure::Service(ServiceError::AlreadyExists {
                name: "b".to_string(),
                endpoint: "/x/y".to_string(),
            }),
            "Service 'b' is already bound to '/x/y'",
        ),
        (ProxyFailure::Service(ServiceError::NotFound("s".to_string())), "Service 's' not found"),
        (ProxyFailure::User(UserError::AlreadyExists("u".to_string())), "User already 'u' exists"),
        (ProxyFailure::User(UserError::NotFound("u".to_string())), "User 'u' not found"),
    ];
    for (error, text) in cases {
        assert_eq!(error.message(), text);
    }
    assert_eq!(
        ProxyError::conf("/etc/proxy.toml", "file extension missing"),
        ProxyError::Conf("error reading '/etc/proxy.toml': file extension missing".to_string())
    );
    assert_eq!(ProxyError::rt("Proxy canceled"), ProxyError::Runtime("Proxy canceled".to_string()));
    assert_eq!(ProxyError::server("closed"), ProxyError::Runtime("server error: closed".to_string()));
    assert_eq!(ProxyError::route("none"), ProxyError::Runtime("route error: none".to_string()));
    assert_eq!(ProxyFailure::other("x"), ProxyFailure::Other("x".to_string()));
}
