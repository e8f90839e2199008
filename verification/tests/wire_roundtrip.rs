//! Wire-level tests: exact payload bytes and round trips in both modes.

use roboplc_rpc::request::Method;
use roboplc_rpc::request::Request;
use roboplc_rpc::response::HandlerResponse;
use roboplc_rpc::response::Response;
use roboplc_rpc::wire;
use roboplc_rpc::Mode;
use roboplc_rpc::RpcError;
use roboplc_rpc::RpcErrorKind;
use roboplc_rpc::Value;

fn hello_request() -> Request {
    Request::new(
        Value::UInt(1),
        Method::new(
            "hello".to_owned(),
            vec![("name".to_owned(), Value::Str("world".to_owned()))],
        ),
    )
}

#[test]
fn request_encodes_canonical_wire_text() {
    let bytes = wire::encode_request(&hello_request(), Mode::Canonical);
    assert_eq!(
        bytes,
        br#"{"jsonrpc":"2.0","id":1,"method":"hello","params":{"name":"world"}}"#.to_vec()
    );
}

#[test]
fn request_encodes_compact_wire_text() {
    let bytes = wire::encode_request(&hello_request(), Mode::Compact);
    assert_eq!(bytes, br#"{"i":1,"m":"hello","p":{"name":"world"}}"#.to_vec());
}

#[test]
fn request_round_trips_canonical() {
    let bytes = wire::encode_request(&hello_request(), Mode::Canonical);
    let back = wire::decode_request(&bytes, Mode::Canonical).unwrap();
    assert_eq!(back.id, Some(Value::UInt(1)));
    assert_eq!(back.method.name, "hello");
    assert_eq!(
        back.method.params,
        vec![("name".to_owned(), Value::Str("world".to_owned()))]
    );
}

#[test]
fn request_round_trips_compact() {
    let bytes = wire::encode_request(&hello_request(), Mode::Compact);
    let back = wire::decode_request(&bytes, Mode::Compact).unwrap();
    assert_eq!(back.id, Some(Value::UInt(1)));
    assert_eq!(back.method.name, "hello");
    assert_eq!(
        back.method.params,
        vec![("name".to_owned(), Value::Str("world".to_owned()))]
    );
}

#[test]
fn fire_and_forget_request_has_no_id_on_the_wire() {
    let req = Request::new0(Method::new("ping".to_owned(), Vec::new()));
    let bytes = wire::encode_request(&req, Mode::Canonical);
    assert_eq!(
        bytes,
        br#"{"jsonrpc":"2.0","method":"ping","params":{}}"#.to_vec()
    );
    let back = wire::decode_request(&bytes, Mode::Canonical).unwrap();
    assert_eq!(back.id, None);
}

#[test]
fn request_round_trips_awkward_strings() {
    let req = Request::new(
        Value::Str("a\"b\\c\nd\u{1}e\u{263A}".to_owned()),
        Method::new(
            "we\tird".to_owned(),
            vec![("k\n".to_owned(), Value::Str("\u{0}".to_owned()))],
        ),
    );
    for mode in [Mode::Canonical, Mode::Compact] {
        let bytes = wire::encode_request(&req, mode);
        let back = wire::decode_request(&bytes, mode).unwrap();
        assert_eq!(back.id, Some(Value::Str("a\"b\\c\nd\u{1}e\u{263A}".to_owned())));
        assert_eq!(back.method.name, "we\tird");
        assert_eq!(
            back.method.params,
            vec![("k\n".to_owned(), Value::Str("\u{0}".to_owned()))]
        );
    }
}

#[test]
fn request_round_trips_extreme_numbers() {
    let req = Request::new(
        Value::UInt(u64::MAX),
        Method::new(
            "nums".to_owned(),
            vec![
                ("a".to_owned(), Value::Int(i64::MIN)),
                ("b".to_owned(), Value::Int(-1)),
                ("c".to_owned(), Value::UInt(0)),
            ],
        ),
    );
    let bytes = wire::encode_request(&req, Mode::Canonical);
    let back = wire::decode_request(&bytes, Mode::Canonical).unwrap();
    assert_eq!(back.id, Some(Value::UInt(u64::MAX)));
    assert_eq!(
        back.method.params,
        vec![
            ("a".to_owned(), Value::Int(i64::MIN)),
            ("b".to_owned(), Value::Int(-1)),
            ("c".to_owned(), Value::UInt(0)),
        ]
    );
}

#[test]
fn response_success_round_trips_both_modes() {
    let resp = Response::from_handler_response(Value::UInt(7), HandlerResponse::Data(Value::Bool(true)));
    let canonical = wire::encode_response(&resp, Mode::Canonical);
    assert_eq!(
        canonical,
        br#"{"jsonrpc":"2.0","id":7,"result":true}"#.to_vec()
    );
    let back = wire::decode_response(&canonical, Mode::Canonical).unwrap();
    assert_eq!(back.id, Value::UInt(7));
    assert_eq!(back.handler_response.ok(), Some(&Value::Bool(true)));

    let compact = wire::encode_response(&resp, Mode::Compact);
    assert_eq!(compact, br#"{"i":7,"r":true}"#.to_vec());
    let back = wire::decode_response(&compact, Mode::Compact).unwrap();
    assert_eq!(back.id, Value::UInt(7));
    assert!(back.handler_response.is_ok());
}

#[test]
fn response_error_round_trips_with_message() {
    let resp = Response::from_handler_response(
        Value::UInt(3),
        HandlerResponse::Error(RpcError::new(RpcErrorKind::Custom(-32000), "X".to_owned())),
    );
    let bytes = wire::encode_response(&resp, Mode::Canonical);
    assert_eq!(
        bytes,
        br#"{"jsonrpc":"2.0","id":3,"error":{"code":-32000,"message":"X"}}"#.to_vec()
    );
    let back = wire::decode_response(&bytes, Mode::Canonical).unwrap();
    let err = back.handler_response.err().unwrap();
    assert_eq!(err.kind(), RpcErrorKind::Custom(-32000));
    assert_eq!(err.message(), Some("X"));
}

#[test]
fn response_error_round_trips_without_message() {
    let resp = Response::from_handler_response(
        Value::UInt(3),
        HandlerResponse::Error(RpcError::new0(RpcErrorKind::MethodNotFound)),
    );
    let bytes = wire::encode_response(&resp, Mode::Compact);
    assert_eq!(bytes, br#"{"i":3,"e":{"code":-32601}}"#.to_vec());
    let back = wire::decode_response(&bytes, Mode::Compact).unwrap();
    let err = back.handler_response.err().unwrap();
    assert_eq!(err.kind(), RpcErrorKind::MethodNotFound);
    assert_eq!(err.message(), None);
}

#[test]
fn decode_accepts_whitespace_and_id_alias() {
    let bytes = b"{ \"jsonrpc\" : \"2.0\" ,\n\t\"i\" : 1 , \"method\" : \"m\" , \"params\" : { } }";
    let back = wire::decode_request(bytes, Mode::Canonical).unwrap();
    assert_eq!(back.id, Some(Value::UInt(1)));
    assert_eq!(back.method.name, "m");
    assert!(back.method.params.is_empty());
}

#[test]
fn decode_accepts_unicode_escapes() {
    let bytes = "{\"jsonrpc\":\"2.0\",\"id\":1,\"method\":\"A\u{263A}\",\"params\":{}}".as_bytes();
    let back = wire::decode_request(bytes, Mode::Canonical).unwrap();
    assert_eq!(back.method.name, "A\u{263A}");
}

#[test]
fn decode_resolves_unicode_escape_sequences() {
    let bytes = br#"{"jsonrpc":"2.0","id":1,"method":"\u0041\u263a","params":{"t":"\n\t\\"}}"#;
    let back = wire::decode_request(bytes, Mode::Canonical).unwrap();
    assert_eq!(back.method.name, "A\u{263A}");
    assert_eq!(
        back.method.params,
        vec![("t".to_owned(), Value::Str("\n\t\\".to_owned()))]
    );
}

#[test]
fn decode_treats_null_id_as_absent() {
    let bytes = br#"{"jsonrpc":"2.0","id":null,"method":"m","params":{}}"#;
    let back = wire::decode_request(bytes, Mode::Canonical).unwrap();
    assert_eq!(back.id, None);
}

#[test]
fn decode_rejects_wrong_version_marker() {
    let bytes = br#"{"jsonrpc":"1.0","id":1,"method":"m","params":{}}"#;
    assert!(wire::decode_request(bytes, Mode::Canonical).is_err());
}

#[test]
fn decode_rejects_duplicate_and_unknown_fields() {
    let dup = br#"{"jsonrpc":"2.0","id":1,"id":2,"method":"m","params":{}}"#;
    assert!(wire::decode_request(dup, Mode::Canonical).is_err());
    let unknown = br#"{"jsonrpc":"2.0","id":1,"method":"m","params":{},"extra":1}"#;
    assert!(wire::decode_request(unknown, Mode::Canonical).is_err());
}

#[test]
fn decode_rejects_missing_method_and_bad_utf8() {
    let missing = br#"{"jsonrpc":"2.0","id":1,"params":{}}"#;
    assert!(wire::decode_request(missing, Mode::Canonical).is_err());
    let bad = [0x7b, 0xff, 0xfe, 0x7d];
    assert!(wire::decode_request(&bad, Mode::Canonical).is_err());
}

#[test]
fn decode_rejects_response_with_both_outcomes() {
    let both = br#"{"jsonrpc":"2.0","id":1,"result":1,"error":{"code":1}}"#;
    assert!(wire::decode_response(both, Mode::Canonical).is_err());
    let neither = br#"{"jsonrpc":"2.0","id":1}"#;
    assert!(wire::decode_response(neither, Mode::Canonical).is_err());
}

#[test]
fn error_kind_maps_to_and_from_wire_codes() {
    let kinds = [
        (RpcErrorKind::ParseError, -32700),
        (RpcErrorKind::InvalidRequest, -32600),
        (RpcErrorKind::MethodNotFound, -32601),
        (RpcErrorKind::InvalidParams, -32602),
        (RpcErrorKind::InternalError, -32603),
        (RpcErrorKind::Custom(-32000), -32000),
        (RpcErrorKind::Custom(7), 7),
    ];
    for (kind, code) in kinds {
        assert_eq!(i16::from(kind), code);
        assert_eq!(RpcErrorKind::from(code), kind);
        assert_eq!(RpcErrorKind::from(i16::from(kind)), kind);
    }
    assert_eq!(RpcErrorKind::from(-32700), RpcErrorKind::ParseError);
}
