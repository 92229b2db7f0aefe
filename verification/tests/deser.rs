use ya_http_proxy::deser::double_opt;
use ya_http_proxy::deser::duration::{double_opt_ms, ms, opt_ms};
use ya_http_proxy::deser::one_or_many::OneOrManyVisitor;
use ya_http_proxy::deser::uri;
use ya_http_proxy::deser::{skip_if_none, Wire};
use ya_http_proxy::addr::SocketAddress;

#[derive(Debug, Default, PartialEq, Eq, Clone, Copy)]
struct SerdeStruct {
    pub number: Option<Option<u32>>,
    pub duration: Option<u64>,
    pub duration_double: Option<Option<u64>>,
}

#[derive(Debug, PartialEq, Eq, Clone, Copy)]
struct OnTheWire {
    number: Wire<u32>,
    duration: Wire<u64>,
    duration_double: Wire<u64>,
}

fn ser(st: &SerdeStruct) -> OnTheWire {
    // each field is left out when it is none
    OnTheWire {
        number: skip_if_none(st.number.is_none(), double_opt::serialize(st.number)),
        duration: skip_if_none(st.duration.is_none(), opt_ms::serialize(&st.duration)),
        duration_double: skip_if_none(
            st.duration_double.is_none(),
            double_opt_ms::serialize(&st.duration_double),
        ),
    }
}

fn de(w: &OnTheWire) -> SerdeStruct {
    SerdeStruct {
        number: double_opt::deserialize(w.number),
        duration: opt_ms::deserialize(w.duration),
        duration_double: double_opt_ms::deserialize(w.duration_double),
    }
}

#[test]
fn double_option() {
    let mut st = SerdeStruct::default();
    st.number = Some(Some(1024));
    assert_eq!(st, de(&ser(&st)));
    st.number = Some(None);
    assert_eq!(st, de(&ser(&st)));
    st.number = None;
    assert_eq!(st, de(&ser(&st)));
}

#[test]
fn option_duration() {
    let mut st = SerdeStruct::default();
    st.duration = Some(1024 * 1000);
    assert_eq!(st, de(&ser(&st)));
    st.duration = None;
    assert_eq!(st, de(&ser(&st)));
    // the writer itself gives the milliseconds, and null for none
    assert_eq!(opt_ms::serialize(&Some(1024 * 1000)), Wire::Value(1_024_000));
    assert_eq!(opt_ms::serialize(&None), Wire::Null);
    assert_eq!(opt_ms::deserialize(opt_ms::serialize(&Some(1024 * 1000))), Some(1_024_000));
    assert_eq!(opt_ms::deserialize(opt_ms::serialize(&None)), None);
}

#[test]
fn double_option_duration() {
    let mut st = SerdeStruct::default();
    st.duration_double = Some(Some(1024 * 1000));
    assert_eq!(st, de(&ser(&st)));
    st.duration_double = Some(None);
    assert_eq!(st, de(&ser(&st)));
    st.duration_double = None;
    assert_eq!(st, de(&ser(&st)));
}

#[test]
fn the_three_states_are_told_apart() {
    assert_eq!(double_opt::serialize(Some(Some(7u32))), Wire::Value(7));
    assert_eq!(double_opt::serialize(Some(None::<u32>)), Wire::Null);
    assert_eq!(double_opt::serialize(None::<Option<u32>>), Wire::Null);
    assert_eq!(double_opt_ms::serialize(&None), Wire::Null);
    assert_eq!(skip_if_none(true, double_opt::serialize(None::<Option<u32>>)), Wire::Absent);
    assert_eq!(skip_if_none(false, Wire::Value(7u32)), Wire::Value(7));
    assert_eq!(double_opt::deserialize(Wire::<u32>::Null), Some(None));
    assert_eq!(double_opt::deserialize(Wire::<u32>::Absent), None);
    assert_eq!(double_opt_ms::deserialize(Wire::Null), Some(None));
    assert_eq!(opt_ms::deserialize(Wire::Null), None);
    assert_eq!(opt_ms::deserialize(Wire::Absent), None);
    assert_eq!(opt_ms::deserialize(Wire::Value(5)), Some(5));
}

#[test]
fn plain_durations_must_be_numbers() {
    assert_eq!(ms::deserialize(Wire::Value(300_000)), Ok(300_000));
    assert_eq!(ms::serialize(1500), Wire::Value(1500));
    assert_eq!(ms::deserialize(Wire::Null), Err("unsigned number of milliseconds".to_string()));
    assert_eq!(ms::deserialize(Wire::Absent), Err("unsigned number of milliseconds".to_string()));
}

#[test]
fn uris_are_strings() {
    let parsed = uri::deserialize("http://127.0.0.1:8444/a?b=c").expect("uri");
    assert_eq!(uri::serialize(&parsed), "http://127.0.0.1:8444/a?b=c");
    assert!(uri::deserialize("http://[bad").is_err());
    let bare = uri::deserialize("http://127.0.0.1:8444").expect("uri");
    assert_eq!(uri::serialize(&bare), "http://127.0.0.1:8444/");
}

#[test]
fn one_address_or_a_sequence() {
    let a = SocketAddress::v4(0, 0, 0, 0, 0);
    let b = SocketAddress::v4(1, 1, 1, 1, 1);
    let visitor = OneOrManyVisitor;
    assert_eq!(visitor.visit_str(a), vec![a]);
    assert_eq!(visitor.visit_seq(vec![b, a]), vec![b, a]);
    assert_eq!(visitor.expecting(), "a single `SocketAddr`s or a sequence thereof");
}
