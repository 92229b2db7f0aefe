use ya_http_proxy::rewrite::{extract_from, extract_req, merge_path_and_query, merge_paths};
use ya_http_proxy::uri::Uri;

fn verify(from: &str, to: &str, request: &str, expect: &str) {
    let to_uri = Uri::parse(to).expect("destination");
    let mut req_uri = Uri::parse(request).expect("request");
    let expect_uri = Uri::parse(expect).expect("expected");
    merge_path_and_query(&mut req_uri, from, &to_uri).expect("merge");
    assert_eq!(req_uri, expect_uri);
}

#[test]
fn merge_uri_paths() {
    verify(
        "/",
        "http://127.0.0.1:5050/",
        "/eth/v1/node/syncing",
        "http://127.0.0.1:5050/eth/v1/node/syncing",
    );
    verify("/", "http://127.0.0.1", "http://1.0.0.1", "http://127.0.0.1/");
    verify("/", "http://127.0.0.1/to", "http://1.0.0.1/", "http://127.0.0.1/to");
    verify("/", "http://127.0.0.1/to/", "http://1.0.0.1", "http://127.0.0.1/to/");
    verify("/", "http://127.0.0.1/to/", "http://1.0.0.1/", "http://127.0.0.1/to/");

    verify("/sub", "http://127.0.0.1/", "http://1.0.0.1/sub", "http://127.0.0.1/");
    verify("/sub", "http://127.0.0.1/", "http://1.0.0.1/sub/", "http://127.0.0.1/");

    verify("/sub/2", "http://127.0.0.1/to", "http://1.0.0.1/sub/2", "http://127.0.0.1/to");

    verify(
        "/sub/2",
        "http://127.0.0.1/to",
        "http://1.0.0.1/sub/2/test",
        "http://127.0.0.1/to/test",
    );
    verify("/sub/2", "http://127.0.0.1/to", "http://1.0.0.1/sub/2/", "http://127.0.0.1/to/");

    verify(
        "/",
        "http://127.0.0.1/to",
        "http://1.0.0.1/resource",
        "http://127.0.0.1/to/resource",
    );

    verify(
        "/",
        "http://127.0.0.1/to",
        "http://1.0.0.1/resource/",
        "http://127.0.0.1/to/resource/",
    );

    verify(
        "/sub/2",
        "http://127.0.0.1/to",
        "http://1.0.0.1/sub/2/resource",
        "http://127.0.0.1/to/resource",
    );
    verify(
        "/sub/2",
        "http://127.0.0.1/to",
        "http://1.0.0.1/sub/2/resource/",
        "http://127.0.0.1/to/resource/",
    );
}

#[test]
fn path_rewrite_edge() {
    verify("/sub/2", "http://b/to", "/sub/2/", "http://b/to/");
}

#[test]
fn request_text_defaults_to_root() {
    assert_eq!(extract_req(None), "/");
    assert_eq!(extract_req(Some("")), "/");
    assert_eq!(extract_req(Some("/a?b=1")), "/a?b=1");
}

#[test]
fn source_prefix_loses_one_trailing_slash() {
    assert_eq!(extract_from(None), "/");
    assert_eq!(extract_from(Some("")), "/");
    assert_eq!(extract_from(Some("/")), "/");
    assert_eq!(extract_from(Some("/sub/")), "/sub");
    assert_eq!(extract_from(Some("/sub")), "/sub");
    assert_eq!(extract_from(Some("/sub//")), "/sub/");
}

#[test]
fn merged_paths_by_case() {
    // no destination path: what is left of the request, or the root
    assert_eq!(merge_paths(Some("/a/b"), Some("/a"), None), "b");
    assert_eq!(merge_paths(Some("/a"), Some("/a"), None), "/");
    // nothing left, at the root, destination without a trailing slash
    assert_eq!(merge_paths(Some("/a/"), Some("/a"), Some("/to")), "/to/");
    // nothing left, not at the root
    assert_eq!(merge_paths(Some("/a"), Some("/a"), Some("/to")), "/to");
    // destination with a trailing slash
    assert_eq!(merge_paths(Some("/a/x?q=1"), Some("/a"), Some("/to/")), "/to/x?q=1");
    // destination without a trailing slash
    assert_eq!(merge_paths(Some("/a/x"), Some("/a"), Some("/to")), "/to/x");
    // the prefix does not match: the request stays
    assert_eq!(merge_paths(Some("/b/x"), Some("/a"), Some("/to")), "/to/b/x");
}

#[test]
fn rewrite_is_repeatable() {
    let to = Uri::parse("http://127.0.0.1:9090/base").expect("destination");
    let mut first = Uri::parse("/test/resource?x=1").expect("request");
    let mut second = Uri::parse("/test/resource?x=1").expect("request");
    merge_path_and_query(&mut first, "/test", &to).expect("merge");
    merge_path_and_query(&mut second, "/test", &to).expect("merge");
    assert_eq!(first, second);
    assert_eq!(first.to_text(), "http://127.0.0.1:9090/base/resource?x=1");
}

#[test]
fn rewrite_error_leaves_the_request() {
    // an authority without a scheme cannot carry a path
    let to = Uri { scheme: None, authority: Some("example.com".to_string()), path_and_query: None };
    let mut req = Uri::parse("/test/x").expect("request");
    let before = req.clone();
    let r = merge_path_and_query(&mut req, "/test", &to);
    assert!(r.is_err());
    assert_eq!(req, before);
}

#[test]
fn parsed_uri_parts() {
    let u = Uri::parse("http://127.0.0.1:5050/a/b?c=d").expect("uri");
    assert_eq!(u.scheme.as_deref(), Some("http"));
    assert_eq!(u.authority.as_deref(), Some("127.0.0.1:5050"));
    assert_eq!(u.path_and_query.as_deref(), Some("/a/b?c=d"));
    assert_eq!(u.path(), "/a/b");
    let bare = Uri::parse("http://127.0.0.1").expect("uri");
    assert_eq!(bare.path_and_query.as_deref(), Some("/"));
    assert_eq!(bare.path(), "/");
    assert!(Uri::parse("").is_err());
    assert!(Uri::parse("http://a b").is_err());
}
