use ya_http_proxy::addr::{Addresses, OneOrMany, SocketAddress};
use ya_http_proxy::conf::{
    http1_keepalive, http1_only, tcp_keepalive, tcp_nodelay, tcp_sleep_on_accept_errors,
    ConfFormat, ProxyConf, ServerConf,
};
use ya_http_proxy::model::{
    next_service_name, AuthMethod, ClockReading, CreateService, CreateServiceCert, PubService,
    Service, Timestamp,
};
use ya_http_proxy::uri::Uri;

fn create(name: &str, https: Option<Addresses>, http: Option<Addresses>) -> CreateService {
    CreateService {
        name: name.to_string(),
        server_name: vec!["example.com".to_string()],
        bind_https: https,
        bind_http: http,
        cert: None,
        auth: None,
        from: "/test".to_string(),
        to: Uri::parse("http://127.0.0.1:9090/").expect("uri"),
        timeouts: None,
        cpu_threads: Some(2),
        user: None,
    }
}

#[test]
fn one_or_many() {
    let first = SocketAddress::v4(0, 0, 0, 0, 0);
    let second = SocketAddress::v4(1, 1, 1, 1, 1);

    let sp = Addresses::from_one_or_many(OneOrMany::One(first)).unwrap();
    assert_eq!(sp.get(0), first);

    let sp = Addresses::from_one_or_many(OneOrMany::Many(vec![first, second])).unwrap();
    assert_eq!(sp.get(0), first);
    assert_eq!(sp.get(1), second);
}

#[test]
fn one_address_equals_a_sequence_of_one() {
    let addr = SocketAddress::v4(127, 0, 0, 1, 8080);
    let one = Addresses::from_one_or_many(OneOrMany::One(addr)).unwrap();
    let many = Addresses::from_one_or_many(OneOrMany::Many(vec![addr])).unwrap();
    assert_eq!(one, many);
    assert!(one.same(&many));
}

#[test]
fn empty_sequence_of_addresses_is_refused() {
    let r = Addresses::from_one_or_many(OneOrMany::Many(vec![]));
    assert_eq!(r, Err("empty sequence".to_string()));
}

#[test]
fn addresses_are_ordered_and_unique() {
    let a = SocketAddress::v4(10, 0, 0, 1, 80);
    let b = SocketAddress::v4(9, 0, 0, 1, 80);
    let c = SocketAddress::v4(9, 0, 0, 1, 79);
    let v6 = SocketAddress::V6 { ip: 1, port: 1, flowinfo: 0, scope_id: 0 };
    let addrs = Addresses::new(vec![a, v6, b, a, c, b]);
    assert_eq!(addrs.to_vec(), vec![c, b, a, v6]);
    assert_eq!(addrs.len(), 4);
    assert!(!addrs.is_empty());
    assert!(Addresses::new(vec![]).is_empty());
    assert_eq!(addrs.ports(), vec![1, 79, 80]);
}

#[test]
fn merge_of_addresses_is_associative() {
    let a = Addresses::new(vec![SocketAddress::v4(1, 1, 1, 1, 1), SocketAddress::v4(3, 3, 3, 3, 3)]);
    let b = Addresses::new(vec![SocketAddress::v4(2, 2, 2, 2, 2)]);
    let c = Addresses::new(vec![SocketAddress::v4(1, 1, 1, 1, 1), SocketAddress::v4(0, 0, 0, 0, 9)]);
    let left = a.clone().merge(&b).merge(&c);
    let right = a.merge(&b.merge(&c));
    assert_eq!(left, right);
    assert_eq!(left.len(), 4);
}

#[test]
fn addresses_as_text() {
    let addrs = Addresses::new(vec![
        SocketAddress::v4(127, 0, 0, 1, 8080),
        SocketAddress::v4(10, 20, 30, 40, 443),
    ]);
    assert_eq!(addrs.to_text(), "[10.20.30.40:443, 127.0.0.1:8080]");
    assert_eq!(Addresses::new(vec![]).to_text(), "[]");
    let v6 = SocketAddress::V6 { ip: 1, port: 80, flowinfo: 0, scope_id: 0 };
    assert_eq!(v6.to_text(), "[::1]:80");
    assert!(SocketAddress::v4(255, 255, 255, 255, 65535).before(&v6));
    assert!(!v6.before(&SocketAddress::v4(0, 0, 0, 0, 0)));
}

fn v6(groups: [u16; 8], port: u16, scope_id: u32) -> SocketAddress {
    let mut ip: u128 = 0;
    for g in groups {
        ip = (ip << 16) | u128::from(g);
    }
    SocketAddress::V6 { ip, port, flowinfo: 0, scope_id }
}

#[test]
fn ipv6_addresses_as_text() {
    assert_eq!(v6([0, 0, 0, 0, 0, 0, 0, 0], 0, 0).to_text(), "[::]:0");
    assert_eq!(v6([0, 0, 0, 0, 0, 0, 0, 1], 80, 0).to_text(), "[::1]:80");
    assert_eq!(v6([0x2001, 0xdb8, 0, 0, 0, 0, 0, 1], 443, 0).to_text(), "[2001:db8::1]:443");
    assert_eq!(v6([0, 0, 0, 0, 0, 0xffff, 0x0102, 0x0304], 80, 0).to_text(), "[::ffff:1.2.3.4]:80");
    // the longest run of zero groups is shortened, the first of two equal ones
    assert_eq!(v6([1, 0, 0, 2, 0, 0, 0, 3], 1, 0).to_text(), "[1:0:0:2::3]:1");
    assert_eq!(v6([0, 0, 1, 0, 0, 2, 3, 4], 1, 0).to_text(), "[::1:0:0:2:3:4]:1");
    assert_eq!(v6([1, 2, 3, 4, 5, 6, 0, 0], 1, 0).to_text(), "[1:2:3:4:5:6::]:1");
    // a single zero group is written out
    assert_eq!(v6([1, 0, 2, 0, 3, 0, 4, 0], 1, 0).to_text(), "[1:0:2:0:3:0:4:0]:1");
    assert_eq!(v6([0, 1, 0, 0, 0, 0, 0, 0], 1, 0).to_text(), "[0:1::]:1");
    // only a mapped address carries its last groups in dotted form
    assert_eq!(v6([0, 0, 0, 0, 0, 0, 0x7f00, 1], 1, 0).to_text(), "[::7f00:1]:1");
    assert_eq!(v6([0xa, 0xb0, 0xc00, 0xd000, 0, 0, 0xffff, 0], 1, 0).to_text(), "[a:b0:c00:d000::ffff:0]:1");
    assert_eq!(v6([0xfe80, 0, 0, 0, 0, 0, 0xabcd, 0x1], 8080, 3).to_text(), "[fe80::abcd:1%3]:8080");
    assert_eq!(
        v6([0xffff, 0xffff, 0xffff, 0xffff, 0xffff, 0xffff, 0xffff, 0xffff], 65535, 0).to_text(),
        "[ffff:ffff:ffff:ffff:ffff:ffff:ffff:ffff]:65535"
    );
}

#[test]
fn binding_key_is_the_union_of_both_bindings() {
    let https = Addresses::new(vec![SocketAddress::v4(127, 0, 0, 1, 443)]);
    let http = Addresses::new(vec![
        SocketAddress::v4(127, 0, 0, 1, 80),
        SocketAddress::v4(127, 0, 0, 1, 443),
    ]);
    let c = create("s", Some(https), Some(http));
    assert_eq!(
        c.addresses().to_vec(),
        vec![SocketAddress::v4(127, 0, 0, 1, 80), SocketAddress::v4(127, 0, 0, 1, 443)]
    );
    assert_eq!(c.https_ports(), vec![443]);
    assert_eq!(c.http_ports(), vec![80, 443]);
    assert!(create("s", None, None).addresses().is_empty());
    assert!(create("s", None, None).http_ports().is_empty());
}

#[test]
fn public_view_of_a_service() {
    let mut c = create("s", Some(Addresses::from_addr(SocketAddress::v4(1, 2, 3, 4, 443))), None);
    c.cert = Some(CreateServiceCert {
        hash: "sha3:00".to_string(),
        path: "/tmp/server.cert".to_string(),
        key_path: "/tmp/server.key".to_string(),
    });
    let at = Timestamp { secs: 10, nanos: 5 };
    let public = PubService::from(Service::from(c, at));
    assert_eq!(public.name, "s");
    assert_eq!(public.server_name, vec!["example.com".to_string()]);
    assert_eq!(public.created_at, at);
    assert_eq!(public.port_https, vec![443]);
    assert!(public.port_http.is_empty());
    assert_eq!(public.cert_hash, Some("sha3:00".to_string()));
    assert_eq!(public.cpu_threads, Some(2));
}

#[test]
fn certificates_compare_by_their_files() {
    let a = CreateServiceCert {
        hash: "sha3:aa".to_string(),
        path: "/c".to_string(),
        key_path: "/k".to_string(),
    };
    let mut b = a.clone();
    b.hash = "sha3:bb".to_string();
    assert!(a == b);
    b.key_path = "/other".to_string();
    assert!(a != b);
}

#[test]
fn service_names_count_up() {
    let mut issued = 0usize;
    assert_eq!(next_service_name(&mut issued), "service-0");
    assert_eq!(next_service_name(&mut issued), "service-1");
    assert_eq!(issued, 2);
    let mut last = usize::MAX;
    let name = next_service_name(&mut last);
    assert_eq!(name, format!("service-{}", usize::MAX));
    assert_eq!(last, 0);
}

#[test]
fn authorization_methods_by_name() {
    assert_eq!(AuthMethod::from_name("basic"), Ok(AuthMethod::Basic));
    assert_eq!(
        AuthMethod::from_name("digest"),
        Err("unknown authorization method 'digest'".to_string())
    );
    assert_eq!(AuthMethod::Basic.name(), "basic");
    assert_eq!(AuthMethod::default(), AuthMethod::Basic);
}

#[test]
fn timestamps_in_order() {
    let a = Timestamp { secs: 1, nanos: 999 };
    let b = Timestamp { secs: 2, nanos: 0 };
    assert!(a.not_after(&b));
    assert!(a.not_after(&a));
    assert!(!b.not_after(&a));
    let first = Timestamp::now();
    assert!(first.secs > 1_600_000_000);
    assert!(first.nanos < 1_000_000_000);
    let second = Timestamp::now();
    assert!(second.nanos < 1_000_000_000);
    assert!(first.not_after(&second));
}

#[test]
fn readings_of_the_clock() {
    let after = ClockReading { before_epoch: false, secs: 1_700_000_000, nanos: 5 };
    assert_eq!(Timestamp::from_reading(after), Timestamp { secs: 1_700_000_000, nanos: 5 });
    // before the epoch the seconds are negative
    let whole = ClockReading { before_epoch: true, secs: 10, nanos: 0 };
    assert_eq!(Timestamp::from_reading(whole), Timestamp { secs: -10, nanos: 0 });
    let part = ClockReading { before_epoch: true, secs: 10, nanos: 250_000_000 };
    assert_eq!(Timestamp::from_reading(part), Timestamp { secs: -11, nanos: 750_000_000 });
    let epoch = ClockReading { before_epoch: true, secs: 0, nanos: 0 };
    assert_eq!(Timestamp::from_reading(epoch), Timestamp { secs: 0, nanos: 0 });
    // seconds beyond the largest signed number stand at that number
    let far = ClockReading { before_epoch: false, secs: u64::MAX, nanos: 1 };
    assert_eq!(Timestamp::from_reading(far), Timestamp { secs: i64::MAX, nanos: 1 });
    let long_ago = ClockReading { before_epoch: true, secs: u64::MAX, nanos: 1 };
    assert_eq!(Timestamp::from_reading(long_ago), Timestamp { secs: i64::MIN, nanos: 999_999_999 });
}

#[test]
fn server_defaults() {
    assert_eq!(tcp_keepalive(), Some(Some(300_000)));
    assert_eq!(tcp_nodelay(), Some(true));
    assert_eq!(tcp_sleep_on_accept_errors(), Some(false));
    assert_eq!(http1_keepalive(), Some(true));
    assert_eq!(http1_only(), Some(false));
    let conf = ServerConf::default();
    assert_eq!(conf.tcp_keepalive, Some(Some(300_000)));
    assert_eq!(conf.tcp_nodelay, Some(true));
    assert_eq!(conf.tcp_sleep_on_accept_errors, Some(false));
    assert_eq!(conf.http1_keepalive, Some(true));
    assert_eq!(conf.http1_only, Some(false));
    assert_eq!(conf.bind_https, None);
    assert!(conf.server_name.is_empty());
    assert!(conf.addresses().is_empty());
    assert_eq!(ProxyConf::default().duplicate(), ProxyConf::default());
}

#[test]
fn configuration_formats() {
    assert_eq!(ConfFormat::from_extension("json"), Some(ConfFormat::Json));
    assert_eq!(ConfFormat::from_extension("TOML"), Some(ConfFormat::Toml));
    assert_eq!(ConfFormat::from_extension("yaml"), Some(ConfFormat::Yaml));
    assert_eq!(ConfFormat::from_extension("Yml"), Some(ConfFormat::Yaml));
    assert_eq!(ConfFormat::from_extension("ini"), None);
}
