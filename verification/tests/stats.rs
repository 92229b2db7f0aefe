use ya_http_proxy::stats::ProxyStats;

#[test]
fn counting_a_request() {
    let mut stats = ProxyStats::new();
    assert_eq!(stats.total(), 0);
    assert_eq!(stats.endpoint("/test/x"), None);
    assert_eq!(stats.user("u"), None);
    assert!(stats.user_endpoint("u").is_none());

    stats.inc("/test/x", "u");
    assert_eq!(stats.total(), 1);
    assert_eq!(stats.endpoint("/test/x"), Some(1));
    assert_eq!(stats.user("u"), Some(1));
    assert_eq!(stats.user_endpoint("u").unwrap().get("/test/x"), Some(&1));

    stats.inc("/test/x", "u");
    stats.inc("/test/y", "u");
    stats.inc("/test/x", "v");
    assert_eq!(stats.total(), 4);
    assert_eq!(stats.endpoint("/test/x"), Some(3));
    assert_eq!(stats.endpoint("/test/y"), Some(1));
    assert_eq!(stats.user("u"), Some(3));
    assert_eq!(stats.user("v"), Some(1));
    let by_endpoint = stats.user_endpoint("u").unwrap();
    assert_eq!(by_endpoint.get("/test/x"), Some(&2));
    assert_eq!(by_endpoint.get("/test/y"), Some(&1));
    assert_eq!(by_endpoint.len(), 2);
    assert_eq!(stats.user_endpoint("v").unwrap().get("/test/y"), None);
}

#[test]
fn counters_never_go_down_while_counting() {
    let mut stats = ProxyStats::new();
    let mut last_total = 0;
    let mut last_user = 0;
    let mut last_endpoint = 0;
    for i in 0..20 {
        stats.inc(if i % 2 == 0 { "/a" } else { "/b" }, if i % 3 == 0 { "u" } else { "v" });
        assert!(stats.total() >= last_total);
        assert!(stats.user("u").unwrap_or(0) >= last_user);
        assert!(stats.endpoint("/a").unwrap_or(0) >= last_endpoint);
        last_total = stats.total();
        last_user = stats.user("u").unwrap_or(0);
        last_endpoint = stats.endpoint("/a").unwrap_or(0);
    }
    assert_eq!(last_total, 20);
    assert_eq!(last_user, 7);
    assert_eq!(last_endpoint, 10);
}

#[test]
fn resetting_counters() {
    let mut stats = ProxyStats::new();
    stats.inc("/a", "u");
    stats.inc("/a", "u");
    stats.reset_endpoint("/a");
    assert_eq!(stats.endpoint("/a"), Some(0));
    assert_eq!(stats.total(), 2);
    assert_eq!(stats.user("u"), Some(2));
    stats.reset_user("u");
    assert_eq!(stats.user("u"), Some(0));
    assert_eq!(stats.user_endpoint("u").unwrap().len(), 0);
    stats.reset_endpoint("/new");
    assert_eq!(stats.endpoint("/new"), Some(0));
    stats.reset_user("w");
    assert_eq!(stats.user("w"), Some(0));
    assert_eq!(stats.total(), 2);
}
