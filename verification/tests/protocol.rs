//! Protocol tests: the client correlator, the server dispatcher with its
//! recovery path, and the transport adapter views.

use roboplc_rpc::client::RpcClient;
use roboplc_rpc::dataformat::Compact;
use roboplc_rpc::dataformat::DataFormat;
use roboplc_rpc::dataformat::Json;
use roboplc_rpc::request::Method;
use roboplc_rpc::request::Request;
use roboplc_rpc::response::HandlerResponse;
use roboplc_rpc::response::Response;
use roboplc_rpc::server::RpcServer;
use roboplc_rpc::server::RpcServerHandler;
use roboplc_rpc::tools::http::HttpResponse;
use roboplc_rpc::tools::http::QueryString;
use roboplc_rpc::wire;
use roboplc_rpc::Mode;
use roboplc_rpc::RpcError;
use roboplc_rpc::RpcErrorKind;
use roboplc_rpc::RpcResult;
use roboplc_rpc::Value;

struct TestHandler;

impl RpcServerHandler for TestHandler {
    fn handle_call(&self, method: Method, _source: &str) -> RpcResult<Value> {
        match method.name.as_str() {
            "test" => Ok(Value::Bool(true)),
            "fail" => Err(RpcError::new(RpcErrorKind::Custom(-32000), "X".to_owned())),
            _ => Err(RpcError::new0(RpcErrorKind::MethodNotFound)),
        }
    }
}

fn server() -> RpcServer<TestHandler> {
    RpcServer::new(TestHandler)
}

#[test]
fn client_counter_starts_at_zero_and_advances() {
    let mut client: RpcClient<Json> = RpcClient::new();
    let first = client.request(Method::new("test".to_owned(), Vec::new())).unwrap();
    let second = client.request(Method::new("test".to_owned(), Vec::new())).unwrap();
    assert_eq!(first.id, Some(0));
    assert_eq!(second.id, Some(1));
    assert_eq!(
        first.payload(),
        br#"{"jsonrpc":"2.0","id":0,"method":"test","params":{}}"#
    );
}

#[test]
fn take_payload_empties_the_call_record() {
    let mut client: RpcClient<Json> = RpcClient::new();
    let mut call = client.request(Method::new("test".to_owned(), Vec::new())).unwrap();
    let payload = call.take_payload();
    assert!(!payload.is_empty());
    assert!(call.payload().is_empty());
}

#[test]
fn dispatch_answers_request_with_id() {
    let mut client: RpcClient<Json> = RpcClient::new();
    let call = client.request(Method::new("test".to_owned(), Vec::new())).unwrap();
    let out = server().handle_request_payload::<Json>(call.payload(), "local").unwrap();
    let resp = Json::unpack_response(&out).unwrap();
    assert_eq!(resp.id, Value::UInt(0));
    assert_eq!(resp.handler_response.ok(), Some(&Value::Bool(true)));
    assert_eq!(call.handle_response(&out), Ok(Value::Bool(true)));
}

#[test]
fn dispatch_produces_nothing_for_fire_and_forget() {
    let client: RpcClient<Json> = RpcClient::new();
    let ok_call = client.request0(Method::new("test".to_owned(), Vec::new())).unwrap();
    assert!(server().handle_request_payload::<Json>(ok_call.payload(), "local").is_none());
    let err_call = client.request0(Method::new("fail".to_owned(), Vec::new())).unwrap();
    assert!(server().handle_request_payload::<Json>(err_call.payload(), "local").is_none());
}

#[test]
fn dispatch_returns_handler_error_verbatim() {
    let mut client: RpcClient<Json> = RpcClient::new();
    let call = client.request(Method::new("fail".to_owned(), Vec::new())).unwrap();
    let out = server().handle_request_payload::<Json>(call.payload(), "local").unwrap();
    let resp = Json::unpack_response(&out).unwrap();
    assert_eq!(resp.id, Value::UInt(0));
    let err = resp.handler_response.err().unwrap();
    assert_eq!(err.kind(), RpcErrorKind::Custom(-32000));
    assert_eq!(err.message(), Some("X"));
    let back = call.handle_response(&out);
    assert_eq!(
        back,
        Err(RpcError::new(RpcErrorKind::Custom(-32000), "X".to_owned()))
    );
}

#[test]
fn recovery_with_good_marker_reports_method_not_found() {
    let payload = br#"{"jsonrpc":"2.0","id":1,"method":{}}"#;
    let out = server().handle_request_payload::<Json>(payload, "local").unwrap();
    let resp = Json::unpack_response(&out).unwrap();
    assert_eq!(resp.id, Value::UInt(1));
    let err = resp.handler_response.err().unwrap();
    assert_eq!(err.kind(), RpcErrorKind::MethodNotFound);
    assert!(err.message().is_some());
}

#[test]
fn recovery_with_wrong_marker_reports_invalid_request() {
    let payload = br#"{"jsonrpc":"1.0","id":1,"method":{}}"#;
    let out = server().handle_request_payload::<Json>(payload, "local").unwrap();
    let resp = Json::unpack_response(&out).unwrap();
    assert_eq!(resp.id, Value::UInt(1));
    let err = resp.handler_response.err().unwrap();
    assert_eq!(err.kind(), RpcErrorKind::InvalidRequest);
    assert_eq!(err.message(), Some("Invalid protocol version"));
}

#[test]
fn recovery_with_absent_marker_reports_invalid_request_without_message() {
    let payload = br#"{"id":1,"method":{}}"#;
    let out = server().handle_request_payload::<Json>(payload, "local").unwrap();
    let resp = Json::unpack_response(&out).unwrap();
    assert_eq!(resp.id, Value::UInt(1));
    let err = resp.handler_response.err().unwrap();
    assert_eq!(err.kind(), RpcErrorKind::InvalidRequest);
    assert_eq!(err.message(), None);
}

#[test]
fn recovery_skips_nested_content_to_find_the_id() {
    let payload = br#"{"jsonrpc":"2.0","junk":{"deep":[1,{"x":"}"}]},"id":9,"method":{}}"#;
    let out = server().handle_request_payload::<Json>(payload, "local").unwrap();
    let resp = Json::unpack_response(&out).unwrap();
    assert_eq!(resp.id, Value::UInt(9));
}

#[test]
fn unanswerable_payloads_produce_no_output() {
    let srv = server();
    assert!(srv.handle_request_payload::<Json>(b"not json at all", "local").is_none());
    assert!(srv
        .handle_request_payload::<Json>(br#"{"jsonrpc":"2.0","method":{}}"#, "local")
        .is_none());
    assert!(srv
        .handle_request_payload::<Json>(br#"{"jsonrpc":"2.0","id":[1],"method":{}}"#, "local")
        .is_none());
}

#[test]
fn handle_response_rejects_mismatched_id() {
    let mut client: RpcClient<Json> = RpcClient::new();
    let call = client.request(Method::new("test".to_owned(), Vec::new())).unwrap();
    let rogue = Response::from_handler_response(
        Value::UInt(999),
        HandlerResponse::Data(Value::Bool(true)),
    );
    let bytes = wire::encode_response(&rogue, Mode::Canonical);
    let back = call.handle_response(&bytes);
    assert_eq!(
        back,
        Err(RpcError::new(
            RpcErrorKind::InvalidRequest,
            "response ID does not match request ID".to_owned()
        ))
    );
}

#[test]
fn handle_response_without_call_id_fails() {
    let client: RpcClient<Json> = RpcClient::new();
    let call = client.request0(Method::new("test".to_owned(), Vec::new())).unwrap();
    let back = call.handle_response(br#"{"jsonrpc":"2.0","id":0,"result":true}"#);
    assert_eq!(
        back,
        Err(RpcError::new(
            RpcErrorKind::InvalidRequest,
            "request ID is missing".to_owned()
        ))
    );
}

#[test]
fn handle_response_reports_parse_errors() {
    let mut client: RpcClient<Json> = RpcClient::new();
    let call = client.request(Method::new("test".to_owned(), Vec::new())).unwrap();
    let back = call.handle_response(b"garbage");
    assert_eq!(back.unwrap_err().kind(), RpcErrorKind::ParseError);
}

#[test]
fn query_string_round_trips_with_type_inference() {
    let req = Request::new(
        Value::UInt(1),
        Method::new(
            "hello".to_owned(),
            vec![("name".to_owned(), Value::Str("world".to_owned()))],
        ),
    );
    let qs = QueryString::from_request(&req).unwrap();
    assert_eq!(qs.as_str(), "i=1&m=hello&name=world");
    let back = qs.to_request().unwrap();
    assert_eq!(back.id, Some(Value::UInt(1)));
    assert_eq!(back.method.name, "hello");
    assert_eq!(
        back.method.params,
        vec![("name".to_owned(), Value::Str("world".to_owned()))]
    );
}

#[test]
fn query_string_infers_scalar_types() {
    let qs = QueryString::new("i=1&m=x&b=true&c=false&z=null&n=42&s=-7&t=words");
    let back = qs.to_request().unwrap();
    assert_eq!(
        back.method.params,
        vec![
            ("b".to_owned(), Value::Bool(true)),
            ("c".to_owned(), Value::Bool(false)),
            ("z".to_owned(), Value::Null),
            ("n".to_owned(), Value::UInt(42)),
            ("s".to_owned(), Value::Int(-7)),
            ("t".to_owned(), Value::Str("words".to_owned())),
        ]
    );
}

#[test]
fn query_string_percent_encodes_values() {
    let req = Request::new0(Method::new(
        "m".to_owned(),
        vec![("q".to_owned(), Value::Str("a b&c".to_owned()))],
    ));
    let qs = QueryString::from_request(&req).unwrap();
    assert_eq!(qs.as_str(), "m=m&q=a+b%26c");
    let back = qs.to_request().unwrap();
    assert_eq!(
        back.method.params,
        vec![("q".to_owned(), Value::Str("a b&c".to_owned()))]
    );
}

#[test]
fn query_string_without_method_is_rejected() {
    let qs = QueryString::new("i=1&a=2");
    assert!(qs.to_request().is_err());
}

#[test]
fn query_string_string_id_uses_json_text() {
    let req = Request::new(
        Value::Str("abc".to_owned()),
        Method::new("m".to_owned(), Vec::new()),
    );
    let qs = QueryString::from_request(&req).unwrap();
    assert_eq!(qs.as_str(), "i=%22abc%22&m=m");
    let back = qs.to_request().unwrap();
    assert_eq!(back.id, Some(Value::Str("abc".to_owned())));
}

#[test]
fn http_view_of_success_outcome() {
    let resp = Response::from_handler_response(Value::UInt(5), HandlerResponse::Data(Value::Bool(true)));
    let h = HttpResponse::from_response(&resp, Mode::Canonical).unwrap();
    assert_eq!(h.status(), 200);
    assert_eq!(
        h.headers(),
        &vec![
            ("Content-Type".to_owned(), "application/json".to_owned()),
            ("X-JSONRPC-ID".to_owned(), "5".to_owned()),
        ]
    );
    assert_eq!(h.body(), r#"{"result":true}"#);
}

#[test]
fn http_view_of_error_outcome() {
    let resp = Response::from_handler_response(
        Value::Str("k".to_owned()),
        HandlerResponse::Error(RpcError::new(RpcErrorKind::InternalError, "boom".to_owned())),
    );
    let h = HttpResponse::from_response(&resp, Mode::Canonical).unwrap();
    assert_eq!(h.status(), 500);
    assert_eq!(h.headers()[1], ("X-JSONRPC-ID".to_owned(), "k".to_owned()));
    assert_eq!(h.body(), r#"{"error":{"code":-32603,"message":"boom"}}"#);
    let (status, headers, body) = h.into_parts();
    assert_eq!(status, 500);
    assert_eq!(headers.len(), 2);
    assert!(!body.is_empty());
}

#[test]
fn compact_mode_recovery_reports_method_not_found() {
    let payload = br#"{"i":4,"m":{}}"#;
    let out = server().handle_request_payload::<Compact>(payload, "local").unwrap();
    let resp = Compact::unpack_response(&out).unwrap();
    assert_eq!(resp.id, Value::UInt(4));
    let err = resp.handler_response.err().unwrap();
    assert_eq!(err.kind(), RpcErrorKind::MethodNotFound);
    assert!(err.message().is_some());
}

#[test]
fn compact_mode_end_to_end() {
    let mut client: RpcClient<Compact> = RpcClient::new();
    let call = client.request(Method::new("test".to_owned(), Vec::new())).unwrap();
    assert_eq!(call.payload(), br#"{"i":0,"m":"test","p":{}}"#);
    let out = server().handle_request_payload::<Compact>(call.payload(), "local").unwrap();
    assert_eq!(out, br#"{"i":0,"r":true}"#.to_vec());
    assert_eq!(call.handle_response(&out), Ok(Value::Bool(true)));
}
